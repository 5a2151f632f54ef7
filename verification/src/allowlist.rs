//! The servers whose pages may talk to the shell: the list that a builder
//! keeps, and the file of the build that it is written into.

use vstd::prelude::*;

use crate::text;

verus! {

/// What stands in the file of the build before the listed addresses.
pub const URLS_MARKER: &'static str = "\"urls\": [";

// ---------------------------------------------------------------------------
// The list
// ---------------------------------------------------------------------------

/// The characters with the Unicode property Cc.
pub open spec fn is_control(c: char) -> bool {
    c as u32 <= 0x1f || 0x7f <= c as u32 <= 0x9f
}

/// Whether the character may not stand in an address of the list.
pub open spec fn is_refused(c: char) -> bool {
    is_control(c) || c == '"' || c == '\\'
}

/// Whether no character of the text is refused.
pub open spec fn is_plain(s: Seq<char>) -> bool {
    forall|i: int| 0 <= i < s.len() ==> !is_refused(#[trigger] s[i])
}

/// Whether the text begins like an address of the web.
pub open spec fn is_web(s: Seq<char>) -> bool {
    text::starts_with(s, "https://"@) || text::starts_with(s, "http://"@)
}

/// The address that a line names, if it names one.
pub open spec fn origin(line: Seq<char>) -> Option<Seq<char>> {
    let s = text::trim(line);
    if is_web(s) && is_plain(s) {
        Some(s)
    } else {
        None
    }
}

/// Whether the character may not stand in an address of the list.
fn refused(c: char) -> (r: bool)
    ensures
        r == is_refused(c),
{
    let u: u32 = c as u32;
    u <= 0x1f || (0x7f <= u && u <= 0x9f) || c == '"' || c == '\\'
}

/// One line of the list, as an address that is let in. What is no address of
/// the web is refused, and so is what could break the file that it is written
/// into.
pub fn valid_allowlist_origin(line: &str) -> (r: Option<String>)
    ensures
        text::opt_text(r) == origin(line@),
{
    let s = text::trim_of(line);
    if !(text::begins(s, "https://") || text::begins(s, "http://")) {
        return None;
    }
    let v = text::chars_of(s);
    let mut i: usize = 0;
    while i < v.len()
        invariant
            v@ == s@,
            s@ == text::trim(line@),
            i <= v@.len(),
            forall|j: int| 0 <= j < i ==> !is_refused(#[trigger] s@[j]),
        decreases v@.len() - i,
    {
        if refused(v[i]) {
            proof {
                assert(is_refused(s@[i as int]));
            }
            return None;
        }
        i = i + 1;
    }
    Some(s.to_string())
}

/// What a line of the list says: nothing where it is empty or a comment.
pub open spec fn entry(line: Seq<char>) -> Option<Seq<char>> {
    let s = text::trim(line);
    if s.len() == 0 || s[0] == '#' {
        None
    } else {
        origin(s)
    }
}

/// At most one address, as a list.
pub open spec fn as_list(o: Option<Seq<char>>) -> Seq<Seq<char>> {
    match o {
        Some(s) => seq![s],
        None => Seq::empty(),
    }
}

/// The addresses of the list, one line after the other.
pub open spec fn listed(raw: Seq<char>) -> Seq<Seq<char>>
    decreases raw.len(),
{
    proof {
        text::lemma_find_range(raw, '\n');
    }
    as_list(entry(text::before(raw, '\n'))) + match text::after(raw, '\n') {
        Some(rest) => listed(rest),
        None => Seq::empty(),
    }
}

/// What a line of the list says.
fn line_entry(line: &str) -> (r: Option<String>)
    ensures
        text::opt_text(r) == entry(line@),
{
    let s = text::trim_of(line);
    if s.unicode_len() == 0 || s.get_char(0) == '#' {
        None
    } else {
        valid_allowlist_origin(s)
    }
}

/// Reads the list: one address a line; empty lines and those that begin with
/// `#` say nothing.
pub fn allowlist_origins(raw: &str) -> (r: Vec<String>)
    ensures
        text::texts(r@) == listed(raw@),
{
    let mut out: Vec<String> = Vec::new();
    let mut rest: &str = raw;
    proof {
        assert(text::texts(out@) + listed(raw@) =~= listed(raw@));
    }
    loop
        invariant
            text::texts(out@) + listed(rest@) == listed(raw@),
        decreases rest@.len(),
    {
        let ghost before = text::texts(out@);
        let ghost here = rest@;
        let said = line_entry(text::before_of(rest, '\n'));
        let ghost list = as_list(text::opt_text(said));
        if let Some(s) = said {
            out.push(s);
        }
        proof {
            text::lemma_find_range(here, '\n');
            assert(text::texts(out@) =~= before + list);
        }
        match text::after_of(rest, '\n') {
            Some(t) => {
                rest = t;
                proof {
                    assert(before + (list + listed(t@)) =~= (before + list) + listed(t@));
                }
            },
            None => {
                proof {
                    assert(before + (list + Seq::empty()) =~= before + list);
                }
                return out;
            },
        }
    }
}

// ---------------------------------------------------------------------------
// The file of the build
// ---------------------------------------------------------------------------

/// The addresses as the file holds them: in quotes, with commas between them.
pub open spec fn items(origins: Seq<Seq<char>>) -> Seq<char>
    decreases origins.len(),
{
    if origins.len() == 0 {
        Seq::empty()
    } else if origins.len() == 1 {
        quoted(origins[0])
    } else {
        items(origins.drop_last()) + ", "@ + quoted(origins.last())
    }
}

/// The text in quotes.
pub open spec fn quoted(s: Seq<char>) -> Seq<char> {
    "\""@ + s + "\""@
}

/// Where the addresses of the file begin.
pub open spec fn list_start(file: Seq<char>) -> Option<int> {
    match text::find_text(file, URLS_MARKER@) {
        Some(at) => Some(at + URLS_MARKER@.len()),
        None => None,
    }
}

/// The file with `origins` in place of the addresses that it holds; `None`
/// where it holds no list of them, or one with a bracket in it.
pub open spec fn spliced(file: Seq<char>, origins: Seq<Seq<char>>) -> Option<Seq<char>> {
    match list_start(file) {
        Some(start) => {
            let held = text::before(file.skip(start), ']');
            if text::find(file.skip(start), ']') == file.skip(start).len() || held.contains('[') {
                None
            } else {
                Some(file.take(start) + items(origins) + file.skip(start + held.len()))
            }
        },
        None => None,
    }
}

/// Writes the addresses in quotes, with commas between them.
fn items_of(origins: &Vec<String>) -> (r: String)
    ensures
        r@ == items(text::texts(origins@)),
{
    let mut out = String::new();
    let mut i: usize = 0;
    let ghost all = text::texts(origins@);
    proof {
        assert(out@ =~= items(all.take(0)));
    }
    while i < origins.len()
        invariant
            i <= origins@.len(),
            all == text::texts(origins@),
            out@ == items(all.take(i as int)),
        decreases origins@.len() - i,
    {
        let ghost before = out@;
        if i > 0 {
            out.append(", ");
        }
        out.append("\"");
        out.append(origins[i].as_str());
        out.append("\"");
        proof {
            let wider = all.take(i + 1);
            assert(wider.drop_last() =~= all.take(i as int));
            assert(wider.last() == origins@[i as int]@);
            assert(out@ =~= items(wider));
        }
        i = i + 1;
    }
    proof {
        assert(all.take(i as int) =~= all);
    }
    out
}

/// Puts the addresses in the place of those that the file holds. A file of
/// another shape is left alone: without the marker, without an end of the
/// list, or with a bracket in the list, which would be taken for its end.
pub fn splice_urls(capability: &str, origins: &Vec<String>) -> (r: Option<String>)
    ensures
        text::opt_text(r) == spliced(capability@, text::texts(origins@)),
{
    let marker = URLS_MARKER;
    let n: usize = capability.unicode_len();
    let start: usize = match text::find_text_in(capability, marker) {
        Some(at) => at + marker.unicode_len(),
        None => return None,
    };
    let rest = capability.substring_char(start, n);
    proof {
        assert(rest@ =~= capability@.skip(start as int));
        text::lemma_find_range(rest@, ']');
    }
    let k: usize = text::find_in(rest, ']');
    if k == rest.unicode_len() {
        return None;
    }
    let held = rest.substring_char(0, k);
    let open: usize = text::find_in(held, '[');
    proof {
        assert(held@ =~= text::before(rest@, ']'));
        text::lemma_find_range(held@, '[');
        if held@.contains('[') {
            let j = choose|j: int| 0 <= j < held@.len() && held@[j] == '[';
            assert(held@[j] == '[');
        }
        assert(open < held@.len() ==> held@[open as int] == '[');
    }
    if open < held.unicode_len() {
        return None;
    }
    let mut merged = capability.substring_char(0, start).to_string();
    let list = items_of(origins);
    merged.append(list.as_str());
    merged.append(capability.substring_char(start + k, n));
    proof {
        assert(capability@.subrange(0, start as int) =~= capability@.take(start as int));
        assert(capability@.subrange(start + k, n as int) =~= capability@.skip(start + k));
    }
    Some(merged)
}

/// What the file of the build becomes, where it changes.
pub open spec fn populated(raw: Option<Seq<char>>, file: Option<Seq<char>>) -> Option<Seq<char>> {
    match (raw, file) {
        (Some(raw), Some(file)) => {
            if listed(raw).len() == 0 || spliced(file, listed(raw)) == Some(file) {
                None
            } else {
                spliced(file, listed(raw))
            }
        },
        _ => None,
    }
}

/// What is to be written into the file of the build. Without a list, without
/// an address in it, without the file or with a file of another shape nothing
/// is, and every server is kept out.
pub fn populate_remote_urls(raw: Option<&str>, capability: Option<&str>) -> (r: Option<String>)
    ensures
        text::opt_text(r) == populated(text::opt_str(raw), text::opt_str(capability)),
{
    let (raw, file) = match (raw, capability) {
        (Some(a), Some(b)) => (a, b),
        _ => return None,
    };
    let origins = allowlist_origins(raw);
    if origins.len() == 0 {
        return None;
    }
    match splice_urls(file, &origins) {
        Some(merged) => {
            if text::same(merged.as_str(), file) {
                None
            } else {
                Some(merged)
            }
        },
        None => None,
    }
}

} // verus!
