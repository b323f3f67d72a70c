//! Semantic-version comparison for the update checker.
//!
//! A version string is split on `'.'`; each segment that is a non-empty
//! run of decimal digits whose value fits in a `u32` contributes one
//! numeric part, and every other segment is skipped. Two part sequences
//! are compared position by position, a missing part counting as zero.

use vstd::prelude::*;

verus! {

/// `c` is an ASCII decimal digit.
pub open spec fn is_digit(c: char) -> bool {
    48 <= c as int <= 57
}

/// Numeric value of an ASCII decimal digit.
pub open spec fn digit_val(c: char) -> int {
    c as int - 48
}

/// The segments of `s` split on `sep`; splitting the empty string gives
/// one empty segment, as `str::split` does.
pub open spec fn split_spec(s: Seq<char>, sep: char) -> Seq<Seq<char>>
    decreases s.len(),
{
    if s.len() == 0 {
        seq![Seq::<char>::empty()]
    } else if s.last() == sep {
        split_spec(s.drop_last(), sep).push(Seq::<char>::empty())
    } else {
        let rest = split_spec(s.drop_last(), sep);
        rest.update(rest.len() - 1, rest.last().push(s.last()))
    }
}

pub proof fn lemma_split_spec_len(s: Seq<char>, sep: char)
    ensures
        split_spec(s, sep).len() >= 1,
    decreases s.len(),
{
    if s.len() > 0 {
        lemma_split_spec_len(s.drop_last(), sep);
    }
}

/// Every character of `seg` is a decimal digit.
pub open spec fn seg_all_digits(seg: Seq<char>) -> bool {
    forall|i: int| 0 <= i < seg.len() ==> is_digit(#[trigger] seg[i])
}

/// The decimal value of `seg` read left to right.
pub open spec fn seg_value(seg: Seq<char>) -> int
    decreases seg.len(),
{
    if seg.len() == 0 {
        0
    } else {
        seg_value(seg.drop_last()) * 10 + digit_val(seg.last())
    }
}

pub proof fn lemma_seg_value_nonneg(seg: Seq<char>)
    requires
        seg_all_digits(seg),
    ensures
        seg_value(seg) >= 0,
    decreases seg.len(),
{
    if seg.len() > 0 {
        assert(seg_all_digits(seg.drop_last()));
        lemma_seg_value_nonneg(seg.drop_last());
        assert(seg_value(seg.drop_last()) * 10 >= 0) by (nonlinear_arith)
            requires
                seg_value(seg.drop_last()) >= 0,
        ;
    }
}

/// The numeric part a segment contributes: its value if it is a
/// non-empty all-digit run fitting in a `u32`, nothing otherwise.
pub open spec fn parse_seg(seg: Seq<char>) -> Option<int> {
    if seg.len() > 0 && seg_all_digits(seg) && seg_value(seg) <= u32::MAX {
        Some(seg_value(seg))
    } else {
        None
    }
}

/// The numeric parts of a sequence of segments, skipped segments left out.
pub open spec fn parsed_parts(segs: Seq<Seq<char>>) -> Seq<int>
    decreases segs.len(),
{
    if segs.len() == 0 {
        Seq::<int>::empty()
    } else {
        let rest = parsed_parts(segs.drop_last());
        match parse_seg(segs.last()) {
            Some(v) => rest.push(v),
            None => rest,
        }
    }
}

/// The numeric parts of a version string.
pub open spec fn version_parts(s: Seq<char>) -> Seq<int> {
    parsed_parts(split_spec(s, '.'))
}

/// The part at position `i`, a missing position counting as zero.
pub open spec fn part_at(parts: Seq<int>, i: int) -> int {
    if 0 <= i < parts.len() {
        parts[i]
    } else {
        0
    }
}

pub open spec fn max_len(a: Seq<int>, b: Seq<int>) -> int {
    if a.len() >= b.len() {
        a.len() as int
    } else {
        b.len() as int
    }
}

/// `a` is strictly newer than `b`, decided at the first position from
/// `i` on where the zero-padded parts differ.
pub open spec fn version_newer_from(a: Seq<int>, b: Seq<int>, i: int) -> bool
    decreases max_len(a, b) - i,
{
    if i < 0 || i >= max_len(a, b) {
        false
    } else if part_at(a, i) > part_at(b, i) {
        true
    } else if part_at(a, i) < part_at(b, i) {
        false
    } else {
        version_newer_from(a, b, i + 1)
    }
}

/// `a` is strictly newer than `b`.
pub open spec fn version_newer(a: Seq<int>, b: Seq<int>) -> bool {
    version_newer_from(a, b, 0)
}

/// The numeric parts of `s`, as `version_parts` gives them.
pub fn parse_version_parts(s: &str) -> (r: Vec<u32>)
    ensures
        r@.map_values(|x: u32| x as int) == version_parts(s@),
{
    let n = s.unicode_len();
    let mut parts: Vec<u32> = Vec::new();
    let mut cur_val: u32 = 0;
    let mut cur_ok: bool = true;
    let mut cur_nonempty: bool = false;
    let ghost mut cur_seg: Seq<char> = Seq::<char>::empty();
    let mut i: usize = 0;
    proof {
        assert(s@.take(0) =~= Seq::<char>::empty());
        assert(parts@.map_values(|x: u32| x as int) =~= Seq::<int>::empty());
    }
    while i < n
        invariant
            n == s@.len(),
            i <= n,
            split_spec(s@.take(i as int), '.').len() >= 1,
            cur_seg == split_spec(s@.take(i as int), '.').last(),
            parts@.map_values(|x: u32| x as int) == parsed_parts(
                split_spec(s@.take(i as int), '.').drop_last(),
            ),
            cur_ok == (seg_all_digits(cur_seg) && seg_value(cur_seg) <= u32::MAX),
            cur_ok ==> cur_val as int == seg_value(cur_seg),
            cur_nonempty == (cur_seg.len() > 0),
        decreases n - i,
    {
        let c = s.get_char(i);
        proof {
            assert(s@.take(i as int + 1).drop_last() =~= s@.take(i as int));
            assert(s@.take(i as int + 1).last() == s@[i as int]);
            lemma_split_spec_len(s@.take(i as int + 1), '.');
        }
        if c == '.' {
            proof {
                let sp = split_spec(s@.take(i as int), '.');
                let sp1 = split_spec(s@.take(i as int + 1), '.');
                assert(sp1 == sp.push(Seq::<char>::empty()));
                assert(sp1.drop_last() =~= sp);
            }
            if cur_nonempty && cur_ok {
                let ghost old_parts = parts@;
                parts.push(cur_val);
                proof {
                    assert(parts@.map_values(|x: u32| x as int) =~= old_parts.map_values(
                        |x: u32| x as int,
                    ).push(cur_val as int));
                    assert(parse_seg(cur_seg) == Some(seg_value(cur_seg)));
                }
            } else {
                proof {
                    assert(parse_seg(cur_seg) is None);
                }
            }
            cur_val = 0;
            cur_ok = true;
            cur_nonempty = false;
            proof {
                cur_seg = Seq::<char>::empty();
            }
        } else {
            proof {
                let sp = split_spec(s@.take(i as int), '.');
                let sp1 = split_spec(s@.take(i as int + 1), '.');
                assert(sp1 == sp.update(sp.len() - 1, sp.last().push(s@[i as int])));
                assert(sp1.drop_last() =~= sp.drop_last());
                assert(sp1.last() == cur_seg.push(s@[i as int]));
                assert(cur_seg.push(s@[i as int]).drop_last() =~= cur_seg);
            }
            let u = c as u32;
            let was_ok = cur_ok;
            if 48 <= u && u <= 57 {
                let d = u - 48;
                if was_ok {
                    let nv: u64 = cur_val as u64 * 10 + d as u64;
                    if nv > u32::MAX as u64 {
                        cur_ok = false;
                        proof {
                            assert(seg_value(cur_seg.push(s@[i as int])) == seg_value(cur_seg) * 10
                                + digit_val(s@[i as int]));
                        }
                    } else {
                        cur_val = nv as u32;
                    }
                } else {
                    proof {
                        let ext = cur_seg.push(s@[i as int]);
                        assert(ext.drop_last() =~= cur_seg);
                        if seg_all_digits(cur_seg) {
                            // the old segment overflowed, so the extended one does too
                            lemma_seg_value_nonneg(cur_seg);
                            assert(seg_value(cur_seg) > u32::MAX);
                            assert(seg_value(cur_seg) * 10 >= seg_value(cur_seg) * 1) by (
                            nonlinear_arith)
                                requires
                                    seg_value(cur_seg) >= 0,
                            ;
                            assert(seg_value(ext) > u32::MAX);
                        } else {
                            assert(!seg_all_digits(ext)) by {
                                let k = choose|k: int|
                                    0 <= k < cur_seg.len() && !is_digit(cur_seg[k]);
                                assert(ext[k] == cur_seg[k]);
                            }
                        }
                    }
                }
            } else {
                cur_ok = false;
                proof {
                    let ext = cur_seg.push(s@[i as int]);
                    assert(!is_digit(ext[ext.len() - 1]));
                }
            }
            cur_nonempty = true;
            proof {
                cur_seg = cur_seg.push(s@[i as int]);
            }
        }
        i += 1;
    }
    proof {
        assert(s@.take(n as int) =~= s@);
    }
    if cur_nonempty && cur_ok {
        let ghost old_parts = parts@;
        parts.push(cur_val);
        proof {
            assert(parts@.map_values(|x: u32| x as int) =~= old_parts.map_values(
                |x: u32| x as int,
            ).push(cur_val as int));
        }
    }
    proof {
        let sp = split_spec(s@, '.');
        assert(parsed_parts(sp) == match parse_seg(sp.last()) {
            Some(v) => parsed_parts(sp.drop_last()).push(v),
            None => parsed_parts(sp.drop_last()),
        });
    }
    parts
}

/// Whether `latest` names a strictly newer version than `current`.
pub fn compare_versions(latest: &str, current: &str) -> (r: bool)
    ensures
        r == version_newer(version_parts(latest@), version_parts(current@)),
{
    let a = parse_version_parts(latest);
    let b = parse_version_parts(current);
    let ghost av = a@.map_values(|x: u32| x as int);
    let ghost bv = b@.map_values(|x: u32| x as int);
    let an = a.len();
    let bn = b.len();
    let n = if an >= bn {
        an
    } else {
        bn
    };
    let mut i: usize = 0;
    while i < n
        invariant
            an == a@.len(),
            bn == b@.len(),
            av == a@.map_values(|x: u32| x as int),
            bv == b@.map_values(|x: u32| x as int),
            av == version_parts(latest@),
            bv == version_parts(current@),
            n as int == max_len(av, bv),
            i <= n,
            version_newer(av, bv) == version_newer_from(av, bv, i as int),
        decreases n - i,
    {
        let x = if i < an {
            a[i]
        } else {
            0u32
        };
        let y = if i < bn {
            b[i]
        } else {
            0u32
        };
        proof {
            assert(x as int == part_at(av, i as int));
            assert(y as int == part_at(bv, i as int));
        }
        if x > y {
            return true;
        }
        if x < y {
            return false;
        }
        i += 1;
    }
    false
}

} // verus!
