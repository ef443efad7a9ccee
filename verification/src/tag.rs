//! Recognizer for the inline sub-language of custom component tags inside a
//! raw HTML span: `<Name key="value" .../>`, `<Name ...>` and `</Name>`.

use vstd::prelude::*;

verus! {

/// Whether a recognized tag opens children, closes them, or is complete in
/// itself.
#[derive(Clone, Copy, Debug, PartialEq, Eq, Structural)]
pub enum TagKind {
    SelfClosing,
    Open,
    Close,
}

/// One recognized component tag: its name, its raw attributes in source
/// order, and its kind.
#[derive(Debug)]
pub struct ComponentTag {
    pub name: String,
    pub attributes: Vec<(String, String)>,
    pub kind: TagKind,
}

/// ASCII letter.
pub open spec fn is_alpha(c: char) -> bool {
    (65 <= c as int <= 90) || (97 <= c as int <= 122)
}

/// ASCII capital letter: a component name starts with one; a lowercase tag
/// stays raw HTML.
pub open spec fn is_upper(c: char) -> bool {
    65 <= c as int <= 90
}

/// A character allowed inside a tag or attribute name after the first.
pub open spec fn is_name_char(c: char) -> bool {
    is_alpha(c) || (48 <= c as int <= 57) || c == '_' || c == '-'
}

/// Index just past the run of name characters starting at `i`.
pub open spec fn spec_scan_name(s: Seq<char>, i: int) -> int
    decreases s.len() - i,
{
    if 0 <= i < s.len() && is_name_char(s[i]) {
        spec_scan_name(s, i + 1)
    } else {
        i
    }
}

/// Index just past the run of spaces starting at `i`.
pub open spec fn spec_scan_spaces(s: Seq<char>, i: int) -> int
    decreases s.len() - i,
{
    if 0 <= i < s.len() && s[i] == ' ' {
        spec_scan_spaces(s, i + 1)
    } else {
        i
    }
}

/// Index of the first `"` at or after `i`, or the end of the text.
pub open spec fn spec_scan_value(s: Seq<char>, i: int) -> int
    decreases s.len() - i,
{
    if 0 <= i < s.len() && s[i] != '"' {
        spec_scan_value(s, i + 1)
    } else {
        i
    }
}

/// The raw attribute pairs as character sequences, in order.
pub open spec fn attr_views(attrs: Seq<(String, String)>) -> Seq<(Seq<char>, Seq<char>)> {
    attrs.map_values(|p: (String, String)| (p.0@, p.1@))
}

/// The attribute list written from `j` to the end of the text, with the
/// kind of closing it ends in: space-separated `key="value"` pairs, then
/// `>` or `/>` ending the text exactly.
pub open spec fn spec_parse_attrs(s: Seq<char>, j: int) -> Option<
    (Seq<(Seq<char>, Seq<char>)>, TagKind),
>
    decreases s.len() - j,
{
    let k = spec_scan_spaces(s, j);
    if k >= s.len() {
        Option::None
    } else if s[k] == '>' {
        if k + 1 == s.len() {
            Option::Some((Seq::<(Seq<char>, Seq<char>)>::empty(), TagKind::Open))
        } else {
            Option::None
        }
    } else if s[k] == '/' {
        if s.len() - k == 2 && s[k + 1] == '>' {
            Option::Some((Seq::<(Seq<char>, Seq<char>)>::empty(), TagKind::SelfClosing))
        } else {
            Option::None
        }
    } else if k == j || !is_alpha(s[k]) {
        Option::None
    } else {
        let ke = spec_scan_name(s, k);
        if ke >= s.len() || s.len() - ke < 2 || s[ke] != '=' || s[ke + 1] != '"' {
            Option::None
        } else {
            let v = spec_scan_value(s, ke + 2);
            if v >= s.len() || v + 1 <= j {
                Option::None
            } else {
                match spec_parse_attrs(s, v + 1) {
                    Option::Some((rest, kind)) => Option::Some(
                        (seq![(s.subrange(k, ke), s.subrange(ke + 2, v))] + rest, kind),
                    ),
                    Option::None => Option::None,
                }
            }
        }
    }
}

/// The one component tag the whole text spells, if it does: its name, its
/// attributes in source order (as character sequences), and its kind.
pub open spec fn spec_parse_tag(s: Seq<char>) -> Option<
    (Seq<char>, Seq<(Seq<char>, Seq<char>)>, TagKind),
> {
    if s.len() < 3 || s[0] != '<' {
        Option::None
    } else {
        let start: int = if s[1] == '/' {
            2
        } else {
            1
        };
        if start >= s.len() || !is_alpha(s[start]) {
            Option::None
        } else {
            let ne = spec_scan_name(s, start);
            let name = s.subrange(start, ne);
            if s[1] == '/' {
                let j = spec_scan_spaces(s, ne);
                if j < s.len() && s[j] == '>' && j + 1 == s.len() {
                    Option::Some((name, Seq::<(Seq<char>, Seq<char>)>::empty(), TagKind::Close))
                } else {
                    Option::None
                }
            } else {
                match spec_parse_attrs(s, ne) {
                    Option::Some((attrs, kind)) => Option::Some((name, attrs, kind)),
                    Option::None => Option::None,
                }
            }
        }
    }
}

fn alpha(c: char) -> (r: bool)
    ensures
        r == is_alpha(c),
{
    let x = c as u32;
    (65 <= x && x <= 90) || (97 <= x && x <= 122)
}

fn name_char(c: char) -> (r: bool)
    ensures
        r == is_name_char(c),
{
    let x = c as u32;
    alpha(c) || (48 <= x && x <= 57) || c == '_' || c == '-'
}

/// Longest run of name characters starting at `i`.
fn scan_name(s: &str, i: usize) -> (j: usize)
    requires
        i <= s@.len(),
    ensures
        i <= j <= s@.len(),
        forall|k: int| i <= k < j ==> is_name_char(#[trigger] s@[k]),
        j < s@.len() ==> !is_name_char(s@[j as int]),
        j == spec_scan_name(s@, i as int),
{
    let n = s.unicode_len();
    let mut j = i;
    while j < n
        invariant
            i <= j <= n,
            n == s@.len(),
            forall|k: int| i <= k < j ==> is_name_char(#[trigger] s@[k]),
            spec_scan_name(s@, i as int) == spec_scan_name(s@, j as int),
        decreases n - j,
    {
        if !name_char(s.get_char(j)) {
            return j;
        }
        j += 1;
    }
    j
}

/// Longest run of spaces starting at `i`.
fn scan_spaces(s: &str, i: usize) -> (j: usize)
    requires
        i <= s@.len(),
    ensures
        i <= j <= s@.len(),
        j < s@.len() ==> s@[j as int] != ' ',
        j == spec_scan_spaces(s@, i as int),
{
    let n = s.unicode_len();
    let mut j = i;
    while j < n
        invariant
            i <= j <= n,
            n == s@.len(),
            spec_scan_spaces(s@, i as int) == spec_scan_spaces(s@, j as int),
        decreases n - j,
    {
        if s.get_char(j) != ' ' {
            return j;
        }
        j += 1;
    }
    j
}

/// Recognizes one complete component tag, exactly when the text spells
/// one by the grammar of `spec_parse_tag`: `<` for an opening or
/// self-closing tag (or `</` for a closing tag), a name beginning with an
/// ASCII letter, then `key="value"` attributes separated by spaces, then
/// `>` or `/>` ending the text. Anything else is not a component tag and
/// stays raw HTML.
pub fn parse_component_tag(s: &str) -> (r: Option<ComponentTag>)
    ensures
        r is Some <==> spec_parse_tag(s@) is Some,
        r matches Some(t) ==> (spec_parse_tag(s@) matches Some(g) && t.name@ == g.0 && t.kind
            == g.2 && attr_views(t.attributes@) == g.1),
        r matches Some(t) ==> t.name@.len() > 0 && is_alpha(t.name@[0]) && (forall|k: int|
            0 <= k < t.name@.len() ==> is_name_char(#[trigger] t.name@[k])) && s@.len() > 0
            && s@[0] == '<',
        r matches Some(t) ==> (t.kind == TagKind::Close ==> t.attributes@.len() == 0),
{
    let n = s.unicode_len();
    if n < 3 || s.get_char(0) != '<' {
        return None;
    }
    let closing = s.get_char(1) == '/';
    let start: usize = if closing { 2 } else { 1 };
    if start >= n || !alpha(s.get_char(start)) {
        return None;
    }
    let name_end = scan_name(s, start);
    let name = s.substring_char(start, name_end).to_owned();
    proof {
        assert(name@[0] == s@[start as int]);
        assert forall|k: int| 0 <= k < name@.len() implies is_name_char(#[trigger] name@[k]) by {
            assert(name@[k] == s@[start + k]);
        }
    }
    if closing {
        // a closing tag carries no attributes: optional spaces, then `>`
        let j = scan_spaces(s, name_end);
        if j < n && s.get_char(j) == '>' && j + 1 == n {
            proof {
                assert(attr_views(Seq::<(String, String)>::empty()) =~= Seq::<(
                    Seq<char>,
                    Seq<char>,
                )>::empty());
            }
            return Some(ComponentTag { name, attributes: Vec::new(), kind: TagKind::Close });
        }
        return None;
    }
    let mut attributes: Vec<(String, String)> = Vec::new();
    proof {
        assert(attr_views(attributes@) =~= Seq::<(Seq<char>, Seq<char>)>::empty());
        match spec_parse_attrs(s@, name_end as int) {
            Option::Some((rest, kd)) => {
                assert(Seq::<(Seq<char>, Seq<char>)>::empty() + rest =~= rest);
            },
            Option::None => {},
        }
    }
    let mut j = name_end;
    loop
        invariant
            name_end <= j <= n,
            n == s@.len(),
            3 <= n,
            s@[0] == '<',
            s@[1] != '/',
            start == 1,
            is_alpha(s@[start as int]),
            name_end == spec_scan_name(s@, start as int),
            name@ == s@.subrange(start as int, name_end as int),
            name@.len() > 0,
            is_alpha(name@[0]),
            forall|k: int| 0 <= k < name@.len() ==> is_name_char(#[trigger] name@[k]),
            spec_parse_attrs(s@, name_end as int) == (match spec_parse_attrs(s@, j as int) {
                Option::Some((rest, kd)) => Option::Some((attr_views(attributes@) + rest, kd)),
                Option::None => Option::None::<(Seq<(Seq<char>, Seq<char>)>, TagKind)>,
            }),
        decreases n - j,
    {
        let k = scan_spaces(s, j);
        if k >= n {
            return None;
        }
        let c = s.get_char(k);
        if c == '>' {
            if k + 1 == n {
                proof {
                    assert(attr_views(attributes@) + Seq::<(Seq<char>, Seq<char>)>::empty()
                        =~= attr_views(attributes@));
                }
                return Some(ComponentTag { name, attributes, kind: TagKind::Open });
            }
            return None;
        }
        if c == '/' {
            if n - k == 2 && s.get_char(k + 1) == '>' {
                proof {
                    assert(attr_views(attributes@) + Seq::<(Seq<char>, Seq<char>)>::empty()
                        =~= attr_views(attributes@));
                }
                return Some(ComponentTag { name, attributes, kind: TagKind::SelfClosing });
            }
            return None;
        }
        // an attribute must be separated from what precedes it by a space
        if k == j {
            return None;
        }
        if !alpha(c) {
            return None;
        }
        let key_end = scan_name(s, k);
        if key_end >= n || n - key_end < 2 || s.get_char(key_end) != '=' || s.get_char(
            key_end + 1,
        ) != '"' {
            return None;
        }
        let value_start = key_end + 2;
        let mut v = value_start;
        while v < n && s.get_char(v) != '"'
            invariant
                value_start <= v <= n,
                n == s@.len(),
                spec_scan_value(s@, value_start as int) == spec_scan_value(s@, v as int),
            decreases n - v,
        {
            v += 1;
        }
        proof {
            assert(v as int == spec_scan_value(s@, value_start as int));
        }
        if v >= n {
            return None;
        }
        let key = s.substring_char(k, key_end).to_owned();
        let value = s.substring_char(value_start, v).to_owned();
        let ghost old_attrs = attributes@;
        attributes.push((key, value));
        proof {
            let pair = (
                s@.subrange(k as int, key_end as int),
                s@.subrange(value_start as int, v as int),
            );
            assert(key@ == pair.0 && value@ == pair.1);
            assert(attr_views(attributes@) =~= attr_views(old_attrs).push((key@, value@)));
            match spec_parse_attrs(s@, v + 1) {
                Option::Some((rest, kd)) => {
                    assert(spec_parse_attrs(s@, j as int) == Option::Some(
                        (seq![pair] + rest, kd),
                    ));
                    assert(attr_views(old_attrs) + (seq![pair] + rest) =~= attr_views(
                        attributes@,
                    ) + rest);
                },
                Option::None => {
                    assert(spec_parse_attrs(s@, j as int) is None);
                },
            }
        }
        j = v + 1;
    }
}

} // verus!
