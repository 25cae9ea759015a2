use vstd::prelude::*;

use core::cmp::Ordering;

verus! {

pub open spec fn is_digit(c: char) -> bool {
    '0' <= c && c <= '9'
}

pub open spec fn digit_value(c: char) -> int {
    c as int - '0' as int
}

pub open spec fn all_digits(c: Seq<char>) -> bool {
    forall|i: int| 0 <= i < c.len() ==> is_digit(#[trigger] c[i])
}

/// The value of the leading run of decimal digits of `c` (0 when there is none).
pub open spec fn leading_value(c: Seq<char>) -> int
    decreases c.len(),
{
    if c.len() == 0 {
        0
    } else if all_digits(c) {
        leading_value(c.drop_last()) * 10 + digit_value(c.last())
    } else {
        leading_value(c.drop_last())
    }
}

/// The parts of `s` between dots, in order.
pub open spec fn split_dots(s: Seq<char>) -> Seq<Seq<char>>
    decreases s.len(),
{
    if s.len() == 0 {
        seq![Seq::<char>::empty()]
    } else {
        let p = split_dots(s.drop_last());
        if s.last() == '.' {
            p.push(Seq::<char>::empty())
        } else {
            p.update(p.len() - 1, p.last().push(s.last()))
        }
    }
}

pub open spec fn saturate(x: int) -> int {
    if x > u64::MAX {
        u64::MAX as int
    } else {
        x
    }
}

/// The numeric components of a version string, each capped at `u64::MAX`.
/// Each dot-separated part counts by its leading digits alone; a
/// pre-release or build suffix gets no order of its own, so the digits of
/// `1.0.0-beta.2` read as the components 1, 0, 0, 2.
pub open spec fn version_components(s: Seq<char>) -> Seq<int> {
    split_dots(s).map_values(|c: Seq<char>| saturate(leading_value(c)))
}

/// Component `k` of a version, zero past its end.
pub open spec fn component_at(v: Seq<int>, k: int) -> int {
    if 0 <= k < v.len() {
        v[k]
    } else {
        0
    }
}

/// Lexicographic order of two component lists from position `k` on.
pub open spec fn compare_from(a: Seq<int>, b: Seq<int>, k: int) -> Ordering
    decreases (if a.len() > b.len() { a.len() } else { b.len() }) - k,
{
    if k < 0 || (k >= a.len() && k >= b.len()) {
        Ordering::Equal
    } else if component_at(a, k) < component_at(b, k) {
        Ordering::Less
    } else if component_at(a, k) > component_at(b, k) {
        Ordering::Greater
    } else {
        compare_from(a, b, k + 1)
    }
}

/// How version `a` orders against version `b`.
pub open spec fn compare_semver_spec(a: Seq<char>, b: Seq<char>) -> Ordering {
    compare_from(version_components(a), version_components(b), 0)
}

proof fn lemma_split_nonempty(s: Seq<char>)
    ensures
        split_dots(s).len() > 0,
    decreases s.len(),
{
    if s.len() > 0 {
        lemma_split_nonempty(s.drop_last());
    }
}

proof fn lemma_leading_nonneg(c: Seq<char>)
    ensures
        leading_value(c) >= 0,
    decreases c.len(),
{
    if c.len() > 0 {
        lemma_leading_nonneg(c.drop_last());
    }
}

proof fn lemma_leading_push(c: Seq<char>, ch: char)
    ensures
        all_digits(c.push(ch)) == (all_digits(c) && is_digit(ch)),
        leading_value(c.push(ch)) == if all_digits(c) && is_digit(ch) {
            leading_value(c) * 10 + digit_value(ch)
        } else {
            leading_value(c)
        },
{
    let d = c.push(ch);
    assert(d.drop_last() =~= c);
    if all_digits(c) && is_digit(ch) {
        assert forall|i: int| 0 <= i < d.len() implies is_digit(#[trigger] d[i]) by {
            if i < c.len() {
                assert(d[i] == c[i]);
            }
        }
    }
    if all_digits(d) {
        assert forall|i: int| 0 <= i < c.len() implies is_digit(#[trigger] c[i]) by {
            assert(d[i] == c[i]);
        }
        assert(is_digit(d[c.len() as int]));
    }
}

/// The numeric components of a version string: the value of the leading
/// digits of each dot-separated part, capped at `u64::MAX`.
pub fn parse_version(s: &str) -> (r: Vec<u64>)
    ensures
        r@.len() == version_components(s@).len(),
        forall|k: int| 0 <= k < r@.len() ==> r@[k] as int == #[trigger] version_components(s@)[k],
{
    let n = s.unicode_len();
    let mut done: Vec<u64> = Vec::new();
    let mut cur: u64 = 0;
    let mut digits_open: bool = true;
    let mut i: usize = 0;
    proof {
        assert(s@.take(0) =~= Seq::<char>::empty());
        assert(all_digits(Seq::<char>::empty()));
    }
    while i < n
        invariant
            n == s@.len(),
            i <= n,
            split_dots(s@.take(i as int)).len() == done@.len() + 1,
            forall|k: int|
                0 <= k < done@.len() ==> done@[k] as int == saturate(
                    leading_value(#[trigger] split_dots(s@.take(i as int))[k]),
                ),
            cur as int == saturate(leading_value(split_dots(s@.take(i as int)).last())),
            digits_open == all_digits(split_dots(s@.take(i as int)).last()),
        decreases n - i,
    {
        let c = s.get_char(i);
        let ghost pre = s@.take(i as int);
        let ghost post = s@.take(i + 1);
        proof {
            assert(post.drop_last() =~= pre);
            assert(post.last() == c);
            lemma_split_nonempty(pre);
        }
        let ghost p = split_dots(pre);
        if c == '.' {
            done.push(cur);
            cur = 0;
            digits_open = true;
            proof {
                assert(split_dots(post) == p.push(Seq::<char>::empty()));
                assert(all_digits(Seq::<char>::empty()));
                assert forall|k: int| 0 <= k < done@.len() implies done@[k] as int == saturate(
                    leading_value(#[trigger] split_dots(post)[k]),
                ) by {
                    if k < p.len() - 1 {
                        assert(split_dots(post)[k] == p[k]);
                    }
                }
            }
        } else {
            let is_d = '0' <= c && c <= '9';
            proof {
                lemma_leading_push(p.last(), c);
                lemma_leading_nonneg(p.last());
                assert(split_dots(post) == p.update(p.len() - 1, p.last().push(c)));
                assert forall|k: int| 0 <= k < done@.len() implies done@[k] as int == saturate(
                    leading_value(#[trigger] split_dots(post)[k]),
                ) by {
                    assert(split_dots(post)[k] == p[k]);
                }
            }
            if digits_open && is_d {
                let d = (c as u32 - '0' as u32) as u64;
                let ghost x = leading_value(p.last());
                if cur > (u64::MAX - d) / 10 {
                    proof {
                        assert(x * 10 + d > u64::MAX) by (nonlinear_arith)
                            requires
                                cur as int == saturate(x),
                                x >= 0,
                                cur > (u64::MAX - d) / 10,
                                0 <= d <= 9,
                        ;
                    }
                    cur = u64::MAX;
                } else {
                    proof {
                        assert(x * 10 + d <= u64::MAX && x == cur) by (nonlinear_arith)
                            requires
                                cur as int == saturate(x),
                                x >= 0,
                                cur <= (u64::MAX - d) / 10,
                                0 <= d <= 9,
                        ;
                    }
                    cur = cur * 10 + d;
                }
            }
            digits_open = digits_open && is_d;
        }
        i += 1;
    }
    done.push(cur);
    proof {
        assert(s@.take(n as int) =~= s@);
        let p = split_dots(s@);
        assert forall|k: int| 0 <= k < done@.len() implies done@[k] as int
            == #[trigger] version_components(s@)[k] by {
            assert(version_components(s@)[k] == saturate(leading_value(p[k])));
        }
    }
    done
}

fn component(v: &Vec<u64>, k: usize) -> (r: u64)
    ensures
        r as int == component_at(v@.map_values(|x: u64| x as int), k as int),
{
    if k < v.len() {
        v[k]
    } else {
        0
    }
}

/// How version `a` orders against version `b`: component by component,
/// numerically, a missing component counting as zero. Release tags are
/// compared by their numbers alone: a pre-release is not placed below its
/// release as semantic versioning places it (`1.0.0-beta.2` ranks above
/// `1.0.0`, as the components 1, 0, 0, 2 against 1, 0, 0).
pub fn compare_semver(a: &str, b: &str) -> (r: Ordering)
    ensures
        r == compare_semver_spec(a@, b@),
{
    let va = parse_version(a);
    let vb = parse_version(b);
    let ghost sa = va@.map_values(|x: u64| x as int);
    let ghost sb = vb@.map_values(|x: u64| x as int);
    proof {
        assert(sa =~= version_components(a@));
        assert(sb =~= version_components(b@));
    }
    let n = if va.len() > vb.len() {
        va.len()
    } else {
        vb.len()
    };
    let mut k: usize = 0;
    while k < n
        invariant
            n == (if sa.len() > sb.len() { sa.len() } else { sb.len() }),
            sa == va@.map_values(|x: u64| x as int),
            sb == vb@.map_values(|x: u64| x as int),
            k <= n,
            sa == version_components(a@),
            sb == version_components(b@),
            compare_from(sa, sb, 0) == compare_from(sa, sb, k as int),
        decreases n - k,
    {
        let x = component(&va, k);
        let y = component(&vb, k);
        assert(compare_from(sa, sb, k as int) == if x < y {
            Ordering::Less
        } else if x > y {
            Ordering::Greater
        } else {
            compare_from(sa, sb, k + 1)
        });
        if x < y {
            return Ordering::Less;
        } else if x > y {
            return Ordering::Greater;
        }
        k += 1;
    }
    Ordering::Equal
}

/// `s` without its leading `v` characters.
pub open spec fn strip_v_spec(s: Seq<char>) -> Seq<char>
    decreases s.len(),
{
    if s.len() > 0 && s[0] == 'v' {
        strip_v_spec(s.drop_first())
    } else {
        s
    }
}

/// Drops every leading `v` of a release tag.
pub fn strip_leading_v(s: &str) -> (r: &str)
    ensures
        r@ == strip_v_spec(s@),
{
    let n = s.unicode_len();
    let mut i: usize = 0;
    assert(s@.subrange(0, n as int) =~= s@);
    while i < n && s.get_char(i) == 'v'
        invariant
            n == s@.len(),
            i <= n,
            strip_v_spec(s@) == strip_v_spec(s@.subrange(i as int, n as int)),
        decreases n - i,
    {
        proof {
            assert(s@.subrange(i as int, n as int).drop_first() =~= s@.subrange(i + 1, n as int));
        }
        i += 1;
    }
    proof {
        assert(s@.subrange(i as int, n as int) =~= s@.subrange(i as int, n as int));
    }
    s.substring_char(i, n)
}

/// The newer version that a release tag announces, if it is strictly newer
/// than `current` by `compare_semver`.
pub fn newer_version(current: &str, tag: &str) -> (r: Option<String>)
    ensures
        compare_semver_spec(current@, strip_v_spec(tag@)) == Ordering::Less ==> (r matches Some(
            v
        ) && v@ == strip_v_spec(tag@)),
        compare_semver_spec(current@, strip_v_spec(tag@)) != Ordering::Less ==> r is None,
{
    let latest = strip_leading_v(tag);
    match compare_semver(current, latest) {
        Ordering::Less => Some(latest.to_string()),
        _ => None,
    }
}

} // verus!
