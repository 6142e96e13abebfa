//! Assembling a candidate's display and search text from already-extracted
//! desktop-entry fields: an optional per-application name override whose
//! carriage return splits off an annotation, an optional extra field that
//! may be hidden when the name already contains it, and hidden searchable
//! fields joined behind the display text.

use vstd::prelude::*;
use vstd::string::{StrSliceExecFns, StringExecFns};

verus! {

/// What `str::to_lowercase` returns: the lowercased text, a function of
/// the characters alone.
pub uninterp spec fn lower_of(s: Seq<char>) -> Seq<char>;

/// `needle` occurs contiguously in `hay` at offset `k`.
pub open spec fn occurs_at(hay: Seq<char>, needle: Seq<char>, k: int) -> bool {
    0 <= k && k + needle.len() <= hay.len() && hay.subrange(k, k + needle.len()) == needle
}

/// `needle` occurs contiguously somewhere in `hay`.
pub open spec fn has_substring(hay: Seq<char>, needle: Seq<char>) -> bool {
    exists|k: int| occurs_at(hay, needle, k)
}

/// `s` with every carriage return turned into a space.
pub open spec fn cr_to_space(s: Seq<char>) -> Seq<char> {
    s.map_values(|c: char| if c == '\r' { ' ' } else { c })
}

/// `s` contains a carriage return.
pub open spec fn has_cr(s: Seq<char>) -> bool {
    exists|k: int| 0 <= k < s.len() && s[k] == '\r'
}

/// Relies on `str::to_lowercase`: the result depends on the characters
/// alone, and an empty string stays empty.
#[verifier::external_body]
fn lowercase(s: &str) -> (r: String)
    ensures
        r@ == lower_of(s@),
        s@.len() == 0 ==> r@.len() == 0,
{
    s.to_lowercase()
}

/// Relies on `str::contains` with a `&str` pattern: true exactly when the
/// needle's characters occur contiguously in the haystack. Both strings
/// are whole codepoint sequences, so a byte-level match always falls on
/// codepoint boundaries.
#[verifier::external_body]
fn contains_str(hay: &str, needle: &str) -> (r: bool)
    ensures
        r == has_substring(hay@, needle@),
{
    hay.contains(needle)
}

/// An overriding name's display text: carriage returns become spaces, and
/// if the name held one, everything after the first marks an annotation.
///
/// Returns the display text and the optional half-open codepoint range of
/// that annotation.
pub fn split_override_name(name: &str) -> (r: (String, Option<(usize, usize)>))
    ensures
        r.0@ == cr_to_space(name@),
        (match r.1 {
            Option::Some((lo, hi)) => {
                &&& 1 <= lo <= name@.len()
                &&& name@[lo - 1] == '\r'
                &&& (forall|k: int| 0 <= k < lo - 1 ==> name@[k] != '\r')
                &&& hi == name@.len()
            },
            Option::None => !has_cr(name@),
        }),
{
    let n = name.unicode_len();
    let mut out = String::new();
    let mut first_cr: Option<usize> = Option::None;
    let mut j: usize = 0;
    while j < n
        invariant
            j <= n,
            n == name@.len(),
            out@ == cr_to_space(name@.subrange(0, j as int)),
            (match first_cr {
                Option::Some(i) => {
                    &&& (i as int) < j
                    &&& name@[i as int] == '\r'
                    &&& (forall|k: int| 0 <= k < i ==> name@[k] != '\r')
                },
                Option::None => (forall|k: int| 0 <= k < j ==> name@[k] != '\r'),
            }),
        decreases n - j,
    {
        let c = name.get_char(j);
        if c == '\r' {
            out.append(" ");
            if first_cr.is_none() {
                first_cr = Option::Some(j);
            }
        } else {
            out.append(name.substring_char(j, j + 1));
        }
        proof {
            reveal_strlit(" ");
            let prev = name@.subrange(0, j as int);
            let cur = name@.subrange(0, j as int + 1);
            assert(cur =~= prev.push(name@[j as int]));
            assert(cr_to_space(cur) =~= cr_to_space(prev).push(
                (if name@[j as int] == '\r' {
                    ' '
                } else {
                    name@[j as int]
                }),
            ));
            if c == '\r' {
                assert(out@ =~= cr_to_space(cur));
            } else {
                assert(name@.subrange(j as int, j as int + 1) =~= Seq::empty().push(
                    name@[j as int],
                ));
                assert(out@ =~= cr_to_space(cur));
            }
        }
        j += 1;
    }
    proof {
        assert(name@.subrange(0, n as int) =~= name@);
    }
    match first_cr {
        Option::Some(i) => (out, Option::Some((i + 1, n))),
        Option::None => (out, Option::None),
    }
}

/// The extra field is shown beside the name: there is one, and it is not
/// suppressed for already being contained, case-insensitively, in the name.
pub open spec fn extra_shown(
    name: Seq<char>,
    extra: Option<Seq<char>>,
    hide_if_contained: bool,
) -> bool {
    match extra {
        Option::Some(e) => !(hide_if_contained && has_substring(lower_of(name), lower_of(e))),
        Option::None => false,
    }
}

/// A non-overridden name's display text: the name, with the extra field
/// appended after a space when it is shown, that suffix marked as the
/// annotation range.
pub fn compose_display(name: &str, extra: Option<&str>, hide_if_contained: bool) -> (r: (
    String,
    Option<(usize, usize)>,
))
    ensures
        (match extra {
            Option::Some(e) => {
                if extra_shown(name@, Option::Some(e@), hide_if_contained) {
                    &&& r.0@ == name@ + seq![' '] + e@
                    &&& r.1 == Option::Some(
                        ((name@.len() + 1) as usize, (name@.len() + 1 + e@.len()) as usize),
                    )
                } else {
                    r.0@ == name@ && r.1 is None
                }
            },
            Option::None => r.0@ == name@ && r.1 is None,
        }),
{
    match extra {
        Option::Some(e) => {
            let suppressed = hide_if_contained && contains_str(
                lowercase(name).as_str(),
                lowercase(e).as_str(),
            );
            if suppressed {
                (String::from_str(name), Option::None)
            } else {
                let mut out = String::from_str(name);
                out.append(" ");
                out.append(e);
                proof {
                    reveal_strlit(" ");
                    assert(out@ =~= name@ + seq![' '] + e@);
                }
                let total = out.as_str().unicode_len();
                let e_len = e.unicode_len();
                let start = total - e_len;
                (out, Option::Some((start, total)))
            }
        },
        Option::None => (String::from_str(name), Option::None),
    }
}

/// The hidden fields joined by single spaces.
pub open spec fn joined(parts: Seq<Seq<char>>) -> Seq<char>
    decreases parts.len(),
{
    if parts.len() == 0 {
        Seq::empty()
    } else if parts.len() == 1 {
        parts[0]
    } else {
        joined(parts.drop_last()) + seq![' '] + parts.last()
    }
}

/// A candidate's search text: the display text alone when there are no
/// hidden fields, otherwise the display text, a space, and the hidden
/// fields joined by spaces.
pub fn compose_search(display: &str, hidden: &Vec<String>) -> (r: String)
    ensures
        hidden@.len() == 0 ==> r@ == display@,
        hidden@.len() > 0 ==> r@ == display@ + seq![' '] + joined(hidden@.map_values(|h: String| h@)),
{
    let mut out = String::from_str(display);
    if hidden.len() == 0 {
        return out;
    }
    out.append(" ");
    proof {
        reveal_strlit(" ");
        assert(out@ =~= display@ + seq![' ']);
    }
    let mut j: usize = 0;
    while j < hidden.len()
        invariant
            1 <= hidden@.len(),
            j <= hidden@.len(),
            j >= 1 ==> out@ == display@ + seq![' '] + joined(
                hidden@.map_values(|h: String| h@).subrange(0, j as int),
            ),
            j == 0 ==> out@ == display@ + seq![' '],
        decreases hidden@.len() - j,
    {
        if j > 0 {
            out.append(" ");
        }
        out.append(hidden[j].as_str());
        proof {
            reveal_strlit(" ");
            let parts = hidden@.map_values(|h: String| h@);
            let cur = parts.subrange(0, j as int + 1);
            if j == 0 {
                assert(cur =~= seq![parts[0]]);
                assert(out@ =~= display@ + seq![' '] + joined(cur));
            } else {
                let prev = parts.subrange(0, j as int);
                assert(cur.drop_last() =~= prev);
                assert(cur.last() == parts[j as int]);
                assert(out@ =~= display@ + seq![' '] + joined(cur));
            }
        }
        j += 1;
    }
    proof {
        let parts = hidden@.map_values(|h: String| h@);
        assert(parts.subrange(0, parts.len() as int) =~= parts);
    }
    out
}

} // verus!
