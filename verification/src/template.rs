//! Positional placeholder substitution.
//!
//! A command template may contain placeholders `{0}`, `{1}`, ... .  Rendering
//! a template against an ordered argument list replaces every placeholder
//! whose index is in range with the argument at that index; a placeholder
//! whose index is out of range, and any text that is not a placeholder, is
//! left verbatim.  Substitution is purely textual: argument values are not
//! quoted or escaped.

use vstd::prelude::*;

verus! {

/// An ASCII decimal digit.
pub open spec fn is_digit(c: char) -> bool {
    48 <= c as u32 && c as u32 <= 57
}

/// The value of one decimal digit.
pub open spec fn digit_val(c: char) -> nat {
    (c as u32 - 48) as nat
}

pub open spec fn all_digits(s: Seq<char>) -> bool {
    forall|i: int| 0 <= i < s.len() ==> is_digit(#[trigger] s[i])
}

/// The number denoted by a sequence of decimal digits, most significant first.
pub open spec fn dec_val(s: Seq<char>) -> nat
    decreases s.len(),
{
    if s.len() == 0 {
        0
    } else {
        dec_val(s.drop_last()) * 10 + digit_val(s.last())
    }
}

/// A canonical decimal numeral: nonempty, digits only, and no leading zero
/// except in "0" itself.  Placeholders are written with canonical numerals;
/// "{00}" is ordinary text.
pub open spec fn canonical_numeral(s: Seq<char>) -> bool {
    &&& s.len() > 0
    &&& all_digits(s)
    &&& (s.len() > 1 ==> s[0] != '0')
}

/// The first m characters of t form a placeholder: `{`, a canonical numeral,
/// `}`.
pub open spec fn placeholder_prefix(t: Seq<char>, m: int) -> bool {
    &&& 3 <= m <= t.len()
    &&& t[0] == '{'
    &&& t[m - 1] == '}'
    &&& canonical_numeral(t.subrange(1, m - 1))
}

pub open spec fn starts_with_placeholder(t: Seq<char>) -> bool {
    exists|m: int| placeholder_prefix(t, m)
}

/// The length of the placeholder at the start of t, where there is one.
pub open spec fn placeholder_end(t: Seq<char>) -> int {
    choose|m: int| placeholder_prefix(t, m)
}

/// The index named by the placeholder at the start of t.
pub open spec fn placeholder_index(t: Seq<char>) -> nat {
    dec_val(t.subrange(1, placeholder_end(t) - 1))
}

/// Rendering a template against an argument list: scan left to right; a
/// placeholder whose index is in range becomes that argument, everything
/// else is kept verbatim.
pub open spec fn subst(t: Seq<char>, args: Seq<Seq<char>>) -> Seq<char>
    decreases t.len(),
{
    if t.len() == 0 {
        Seq::empty()
    } else if starts_with_placeholder(t) {
        let m = placeholder_end(t);
        if placeholder_index(t) < args.len() {
            args[placeholder_index(t) as int] + subst(t.skip(m), args)
        } else {
            t.take(m) + subst(t.skip(m), args)
        }
    } else {
        seq![t[0]] + subst(t.skip(1), args)
    }
}

/// A placeholder is delimited by its closing brace, so its extent is
/// unambiguous.
pub proof fn lemma_placeholder_unique(t: Seq<char>, m1: int, m2: int)
    requires
        placeholder_prefix(t, m1),
        placeholder_prefix(t, m2),
    ensures
        m1 == m2,
{
    if m1 < m2 {
        assert(is_digit(t.subrange(1, m2 - 1)[m1 - 2]));
        assert(t.subrange(1, m2 - 1)[m1 - 2] == t[m1 - 1]);
    }
    if m2 < m1 {
        assert(is_digit(t.subrange(1, m1 - 1)[m2 - 2]));
        assert(t.subrange(1, m1 - 1)[m2 - 2] == t[m2 - 1]);
    }
}

/// The view of each argument in order.
pub open spec fn arg_views(args: Seq<String>) -> Seq<Seq<char>> {
    args.map_values(|a: String| a@)
}

/// A template that contains no placeholder anywhere.
pub open spec fn placeholder_free(t: Seq<char>) -> bool {
    forall|i: int| 0 <= i <= t.len() ==> !starts_with_placeholder(#[trigger] t.skip(i))
}

/// Law: substitution leaves a template without placeholders exactly as it
/// is, whatever the arguments.
pub proof fn lemma_subst_placeholder_free(t: Seq<char>, args: Seq<Seq<char>>)
    requires
        placeholder_free(t),
    ensures
        subst(t, args) == t,
    decreases t.len(),
{
    if t.len() == 0 {
        assert(subst(t, args) =~= t);
    } else {
        assert(t.skip(0) =~= t);
        assert(!starts_with_placeholder(t));
        assert forall|i: int|
            0 <= i <= t.skip(1).len() implies !starts_with_placeholder(
            #[trigger] t.skip(1).skip(i),
        ) by {
            assert(t.skip(1).skip(i) =~= t.skip(1 + i));
        }
        lemma_subst_placeholder_free(t.skip(1), args);
        assert(subst(t, args) == seq![t[0]] + t.skip(1));
        assert(seq![t[0]] + t.skip(1) =~= t);
    }
}

/// Law: substitution is idempotent on templates without placeholders;
/// rendering such a template twice is the same as rendering it once.
pub proof fn lemma_subst_idempotent(t: Seq<char>, args: Seq<Seq<char>>)
    requires
        placeholder_free(t),
    ensures
        subst(subst(t, args), args) == subst(t, args),
{
    lemma_subst_placeholder_free(t, args);
}

/// Law: at a placeholder whose index is in range, substitution yields that
/// very argument, followed by the rendering of the rest of the template.
pub proof fn lemma_subst_replaces(t: Seq<char>, m: int, args: Seq<Seq<char>>)
    requires
        placeholder_prefix(t, m),
        dec_val(t.subrange(1, m - 1)) < args.len(),
    ensures
        subst(t, args) == args[dec_val(t.subrange(1, m - 1)) as int] + subst(t.skip(m), args),
{
    lemma_placeholder_unique(t, placeholder_end(t), m);
}

/// Law: at a placeholder whose index is out of range, substitution keeps
/// the placeholder text verbatim and renders on after it.
pub proof fn lemma_subst_out_of_range(t: Seq<char>, m: int, args: Seq<Seq<char>>)
    requires
        placeholder_prefix(t, m),
        dec_val(t.subrange(1, m - 1)) >= args.len(),
    ensures
        subst(t, args) == t.take(m) + subst(t.skip(m), args),
{
    lemma_placeholder_unique(t, placeholder_end(t), m);
}

/// No placeholder starts at the head of s when the digits after its `{`
/// (they reach up to but not including position e) are not closed off by a
/// `}` that makes a canonical numeral.
proof fn lemma_not_placeholder(s: Seq<char>, e: int)
    requires
        1 <= e <= s.len(),
        s[0] == '{',
        forall|k: int| 1 <= k < e ==> is_digit(#[trigger] s[k]),
        e < s.len() ==> !is_digit(s[e]),
        e == s.len() || s[e] != '}' || e == 1 || (e > 2 && s[1] == '0'),
    ensures
        !starts_with_placeholder(s),
{
    if starts_with_placeholder(s) {
        let m = placeholder_end(s);
        assert(placeholder_prefix(s, m));
        if m - 1 < e {
            assert(is_digit(s[m - 1]));
        } else if m - 1 == e {
            if e > 2 && s[1] == '0' {
                assert(s.subrange(1, m - 1)[0] == s[1]);
            }
        } else {
            assert(s.subrange(1, m - 1)[e - 1] == s[e]);
            assert(is_digit(s.subrange(1, m - 1)[e - 1]));
        }
        assert(false);
    }
}

fn digit_check(c: char) -> (b: bool)
    ensures
        b == is_digit(c),
{
    let u = c as u32;
    48 <= u && u <= 57
}

fn digit_value(c: char) -> (v: u32)
    requires
        is_digit(c),
    ensures
        v as nat == digit_val(c),
{
    c as u32 - 48
}

/// What the scanner found at a `{`: ordinary text after all, or a placeholder
/// whose index is below the given bound, or one at or above it.
enum PlaceholderScan {
    NotPlaceholder,
    InRange { len: usize, index: usize },
    OutOfRange { len: usize },
}

/// Scan the placeholder candidate that starts with the `{` at position i.
fn scan_placeholder(template: &str, i: usize, bound: usize) -> (r: PlaceholderScan)
    requires
        i < template@.len(),
        template@[i as int] == '{',
    ensures
        (match r {
            PlaceholderScan::NotPlaceholder => !starts_with_placeholder(
                template@.skip(i as int),
            ),
            PlaceholderScan::InRange { len, index } => {
                &&& placeholder_prefix(template@.skip(i as int), len as int)
                &&& index as nat == placeholder_index(template@.skip(i as int))
                &&& index < bound
            },
            PlaceholderScan::OutOfRange { len } => {
                &&& placeholder_prefix(template@.skip(i as int), len as int)
                &&& placeholder_index(template@.skip(i as int)) >= bound
            },
        }),
{
    let ghost s = template@.skip(i as int);
    let n = template.unicode_len();
    let mut j: usize = i + 1;
    let mut acc: u128 = 0;
    let mut over: bool = bound == 0;
    while j < n && digit_check(template.get_char(j))
        invariant
            n == template@.len(),
            i < n,
            template@[i as int] == '{',
            s == template@.skip(i as int),
            i + 1 <= j <= n,
            forall|k: int| i + 1 <= k < j ==> is_digit(#[trigger] template@[k]),
            over <==> dec_val(template@.subrange(i + 1, j as int)) >= bound,
            !over ==> acc as nat == dec_val(template@.subrange(i + 1, j as int)) && acc
                < bound,
        decreases n - j,
    {
        let d = digit_value(template.get_char(j));
        proof {
            assert(template@.subrange(i + 1, j + 1) =~= template@.subrange(
                i + 1,
                j as int,
            ).push(template@[j as int]));
            assert(template@.subrange(i + 1, j + 1).drop_last() =~= template@.subrange(
                i + 1,
                j as int,
            ));
        }
        if !over {
            let next = acc * 10 + d as u128;
            if next >= bound as u128 {
                over = true;
            } else {
                acc = next;
            }
        }
        j = j + 1;
    }
    proof {
        assert forall|k: int| 1 <= k < j - i implies is_digit(#[trigger] s[k]) by {
            assert(s[k] == template@[i + k]);
        }
        assert(s.len() == n - i);
    }
    if j == n {
        proof {
            lemma_not_placeholder(s, j - i);
        }
        return PlaceholderScan::NotPlaceholder;
    }
    let cj = template.get_char(j);
    proof {
        assert(s[j - i] == template@[j as int]);
    }
    if cj != '}' {
        proof {
            lemma_not_placeholder(s, j - i);
        }
        return PlaceholderScan::NotPlaceholder;
    }
    if j == i + 1 {
        proof {
            lemma_not_placeholder(s, 1);
        }
        return PlaceholderScan::NotPlaceholder;
    }
    if j > i + 2 && template.get_char(i + 1) == '0' {
        proof {
            assert(s[1] == template@[i + 1]);
            lemma_not_placeholder(s, j - i);
        }
        return PlaceholderScan::NotPlaceholder;
    }
    let m = j - i + 1;
    proof {
        assert(s.subrange(1, m - 1) =~= template@.subrange(i + 1, j as int));
        assert(s[m - 1] == template@[j as int]);
        assert(placeholder_prefix(s, m as int));
        lemma_placeholder_unique(s, placeholder_end(s), m as int);
    }
    if over {
        PlaceholderScan::OutOfRange { len: m }
    } else {
        PlaceholderScan::InRange { len: m, index: acc as usize }
    }
}

/// Render a template against an argument list: every placeholder `{i}` with
/// i below the number of arguments becomes the argument at index i; all
/// other text, placeholders with out-of-range indices included, is kept
/// verbatim.
pub fn substitute(template: &str, args: &Vec<String>) -> (r: String)
    ensures
        r@ == subst(template@, arg_views(args@)),
{
    let ghost t = template@;
    let ghost a = arg_views(args@);
    let n = template.unicode_len();
    let mut res = String::new();
    let mut i: usize = 0;
    proof {
        assert(t.skip(0) =~= t);
        assert(Seq::<char>::empty() + subst(t, a) =~= subst(t, a));
    }
    while i < n
        invariant
            n == t.len(),
            t == template@,
            a == arg_views(args@),
            i <= n,
            res@ + subst(t.skip(i as int), a) == subst(t, a),
        decreases n - i,
    {
        let ghost s = t.skip(i as int);
        let c = template.get_char(i);
        if c == '{' {
            match scan_placeholder(template, i, args.len()) {
                PlaceholderScan::InRange { len, index } => {
                    proof {
                        assert(starts_with_placeholder(s));
                        lemma_placeholder_unique(s, placeholder_end(s), len as int);
                        assert(a.len() == args@.len());
                        assert(subst(s, a) == a[index as int] + subst(s.skip(len as int), a));
                        assert(s.skip(len as int) =~= t.skip(i + len));
                        assert(a[index as int] == args@[index as int]@);
                        assert((res@ + a[index as int]) + subst(t.skip(i + len), a) =~= res@
                            + (a[index as int] + subst(t.skip(i + len), a)));
                    }
                    let arg: &String = &args[index];
                    res.append(arg.as_str());
                    i = i + len;
                },
                PlaceholderScan::OutOfRange { len } => {
                    let piece = template.substring_char(i, i + len);
                    proof {
                        assert(starts_with_placeholder(s));
                        lemma_placeholder_unique(s, placeholder_end(s), len as int);
                        assert(a.len() == args@.len());
                        assert(subst(s, a) == s.take(len as int) + subst(
                            s.skip(len as int),
                            a,
                        ));
                        assert(s.skip(len as int) =~= t.skip(i + len));
                        assert(piece@ =~= s.take(len as int));
                        assert((res@ + piece@) + subst(t.skip(i + len), a) =~= res@ + (piece@
                            + subst(t.skip(i + len), a)));
                    }
                    res.append(piece);
                    i = i + len;
                },
                PlaceholderScan::NotPlaceholder => {
                    let piece = template.substring_char(i, i + 1);
                    proof {
                        assert(s.len() > 0);
                        assert(subst(s, a) == seq![s[0]] + subst(s.skip(1), a));
                        assert(s.skip(1) =~= t.skip(i + 1));
                        assert(piece@ =~= seq![s[0]]);
                        assert((res@ + piece@) + subst(t.skip(i + 1), a) =~= res@ + (piece@
                            + subst(t.skip(i + 1), a)));
                    }
                    res.append(piece);
                    i = i + 1;
                },
            }
        } else {
            let piece = template.substring_char(i, i + 1);
            proof {
                assert(s[0] == t[i as int]);
                assert(!starts_with_placeholder(s));
                assert(s.len() > 0);
                assert(subst(s, a) == seq![s[0]] + subst(s.skip(1), a));
                assert(s.skip(1) =~= t.skip(i + 1));
                assert(piece@ =~= seq![s[0]]);
                assert((res@ + piece@) + subst(t.skip(i + 1), a) =~= res@ + (piece@ + subst(
                    t.skip(i + 1),
                    a,
                )));
            }
            res.append(piece);
            i = i + 1;
        }
    }
    proof {
        assert(t.skip(n as int) =~= Seq::<char>::empty());
        assert(res@ + Seq::<char>::empty() =~= res@);
    }
    res
}

} // verus!
