//! What holds of the list of servers that may talk to the shell.

use vstd::prelude::*;

use crate::allowlist;
use crate::text;
use crate::text_laws;

verus! {

/// Every listed address is one of the web, without a character that could
/// break the file that it is written into.
pub proof fn law_listed_are_plain_addresses(raw: Seq<char>, i: int)
    requires
        0 <= i < allowlist::listed(raw).len(),
    ensures
        allowlist::is_web(allowlist::listed(raw)[i]),
        allowlist::is_plain(allowlist::listed(raw)[i]),
    decreases raw.len(),
{
    text::lemma_find_range(raw, '\n');
    let head = allowlist::as_list(allowlist::entry(text::before(raw, '\n')));
    if i >= head.len() {
        match text::after(raw, '\n') {
            Some(rest) => {
                law_listed_are_plain_addresses(rest, i - head.len());
            },
            None => {},
        }
    }
}

/// The characters that an address of the list may hold: all but control
/// characters, quotes and backslashes.
pub open spec fn admits(c: char) -> bool {
    &&& ' ' <= c <= '~' || '\u{a0}' <= c
    &&& c != '"'
    &&& c != '\\'
}

/// The same characters are refused.
proof fn lemma_admits(c: char)
    ensures
        admits(c) == !allowlist::is_refused(c),
{
}

/// A line that is an address of the web, of characters that an address may
/// hold, is listed as it is.
pub proof fn law_plain_address_is_listed(line: Seq<char>)
    requires
        text::starts_with(line, "https://"@) || text::starts_with(line, "http://"@),
        forall|i: int| 0 <= i < line.len() ==> admits(#[trigger] line[i]),
        !text_laws::white(line.last()),
    ensures
        allowlist::origin(line) == Some(line),
        allowlist::listed(line) == seq![line],
{
    reveal_strlit("https://");
    reveal_strlit("http://");
    assert(line[0] == 'h') by {
        if text::starts_with(line, "https://"@) {
            assert(line.take("https://"@.len() as int)[0] == line[0]);
        } else {
            assert(line.take("http://"@.len() as int)[0] == line[0]);
        }
    }
    lemma_h_is_tight();
    text_laws::law_tight_text_is_kept(line);
    assert forall|i: int| 0 <= i < line.len() implies !allowlist::is_refused(#[trigger] line[i]) by {
        assert(admits(line[i]));
        lemma_admits(line[i]);
    }
    assert(!line.contains('\n')) by {
        if line.contains('\n') {
            let k = choose|k: int| 0 <= k < line.len() && line[k] == '\n';
            assert(admits(line[k]));
        }
    }
    text_laws::law_text_is_cut_at_the_first(line, '\n', line);
    assert(allowlist::listed(line) =~= seq![line]);
}

/// The first letter of an address is no white space.
proof fn lemma_h_is_tight()
    ensures
        !text_laws::white('h'),
{
}

/// The list goes line by line, and white space around a line makes no
/// difference.
pub proof fn law_list_goes_line_by_line(line: Seq<char>, rest: Seq<char>, c: char)
    requires
        !line.contains('\n'),
    ensures
        allowlist::listed(line + seq!['\n'] + rest) == allowlist::listed(line)
            + allowlist::listed(rest),
        allowlist::listed(line).len() <= 1,
        text_laws::white(c) ==> allowlist::entry(line.push(c)) == allowlist::entry(line),
        text_laws::white(c) ==> allowlist::entry(seq![c] + line) == allowlist::entry(line),
        allowlist::listed(line) == allowlist::as_list(allowlist::entry(line)),
{
    text_laws::law_text_is_cut_at_the_first(line, '\n', rest);
    assert(allowlist::listed(line) =~= allowlist::as_list(allowlist::entry(line)));
    if text_laws::white(c) {
        text_laws::law_white_space_is_dropped(line, c);
    }
}

/// A line without text, a comment, a line that does not begin like an address
/// of the web, and one with a character that an address may not hold, say
/// nothing.
pub proof fn law_other_lines_say_nothing(line: Seq<char>, i: int)
    requires
        !line.contains('\n'),
        ({
            let s = text::trim(line);
            ||| s.len() == 0
            ||| s[0] == '#'
            ||| !text::starts_with(s, "https://"@) && !text::starts_with(s, "http://"@)
            ||| 0 <= i < s.len() && !admits(s[i])
        }),
    ensures
        allowlist::listed(line).len() == 0,
{
    let s = text::trim(line);
    law_list_goes_line_by_line(line, line, ' ');
    text::lemma_trim(line);
    if s.len() > 0 {
        lemma_space(s[0]);
        lemma_space(s.last());
        text_laws::law_tight_text_is_kept(s);
        if 0 <= i < s.len() {
            lemma_admits(s[i]);
        }
    }
}

/// The same characters are white space.
proof fn lemma_space(c: char)
    ensures
        text_laws::white(c) == text::is_space(c),
{
}

/// The addresses are written in quotes, one after the other, with a comma and a
/// space between them.
pub proof fn law_addresses_are_written_in_quotes(origins: Seq<Seq<char>>, s: Seq<char>)
    ensures
        allowlist::items(Seq::empty()).len() == 0,
        origins.len() == 0 ==> allowlist::items(origins.push(s)) == seq!['"'] + s + seq!['"'],
        origins.len() > 0 ==> allowlist::items(origins.push(s)) == allowlist::items(origins)
            + seq![',', ' ', '"'] + s + seq!['"'],
{
    reveal_strlit("\"");
    reveal_strlit(", ");
    assert(origins.push(s).drop_last() =~= origins);
    assert("\""@ =~= seq!['"']);
    assert(", "@ + allowlist::quoted(s) =~= seq![',', ' ', '"'] + s + seq!['"']);
    assert(allowlist::items(origins) + ", "@ + allowlist::quoted(s) =~= allowlist::items(origins)
        + seq![',', ' ', '"'] + s + seq!['"']);
}

/// The addresses that a file holds after its first marker, up to the bracket
/// that ends them, are replaced by the given ones, and nothing else is.
pub proof fn law_list_is_replaced(
    head: Seq<char>,
    held: Seq<char>,
    tail: Seq<char>,
    origins: Seq<Seq<char>>,
)
    requires
        forall|j: int|
            0 <= j < head.len() ==> !#[trigger] text::occurs_at(
                head + "\"urls\": ["@ + held + seq![']'] + tail,
                "\"urls\": ["@,
                j,
            ),
        !held.contains('['),
        !held.contains(']'),
    ensures
        allowlist::spliced(head + "\"urls\": ["@ + held + seq![']'] + tail, origins) == Some(
            head + "\"urls\": ["@ + allowlist::items(origins) + seq![']'] + tail,
        ),
{
    let marker = "\"urls\": ["@;
    let file = head + marker + held + seq![']'] + tail;
    let at = head.len() as int;
    let start = at + marker.len();
    assert(file.subrange(at, start) =~= marker);
    assert(text::occurs_at(file, marker, at));
    text::lemma_find_text(file, marker, at);
    assert(allowlist::list_start(file) == Some(start));
    let rest = file.skip(start);
    assert(rest =~= held + seq![']'] + tail);
    text_laws::law_text_is_cut_at_the_first(held, ']', tail);
    assert forall|j: int| 0 <= j < held.len() implies rest[j] != ']' by {
        assert(held.contains(held[j]));
    }
    text::lemma_find(rest, ']', held.len() as int);
    assert(file.take(start) =~= head + marker);
    assert(file.skip(start + held.len()) =~= seq![']'] + tail);
    assert(head + marker + allowlist::items(origins) + (seq![']'] + tail) =~= head + marker
        + allowlist::items(origins) + seq![']'] + tail);
}

/// A file without the marker, or without the end of the list, is left alone.
pub proof fn law_file_of_another_shape_is_left_alone(
    file: Seq<char>,
    origins: Seq<Seq<char>>,
)
    requires
        !text::has(file, "\"urls\": ["@) || !file.contains(']'),
    ensures
        allowlist::spliced(file, origins) is None,
{
    let marker = "\"urls\": ["@;
    text::lemma_find_text_range(file, marker);
    if text::find_text(file, marker) is Some {
        let k = text::find_text(file, marker)->0;
        assert(text::has(file, marker));
        let start = k + marker.len();
        let rest = file.skip(start);
        text::lemma_find_range(rest, ']');
        if text::find(rest, ']') < rest.len() {
            assert(file[start + text::find(rest, ']')] == ']');
        }
    }
}

/// The file of a build is written exactly where there is a list with an address
/// in it and a file with a place for it, and the file changes by it.
pub proof fn law_build_writes_what_changes(raw: Seq<char>, file: Seq<char>)
    ensures
        allowlist::populated(None, Some(file)) is None,
        allowlist::populated(Some(raw), None) is None,
        allowlist::listed(raw).len() == 0 ==> allowlist::populated(Some(raw), Some(file)) is None,
        allowlist::populated(Some(raw), Some(file)) matches Some(new) ==> new != file
            && allowlist::spliced(file, allowlist::listed(raw)) == Some(new),
        allowlist::listed(raw).len() > 0 && allowlist::spliced(file, allowlist::listed(raw)) is Some
            && allowlist::spliced(file, allowlist::listed(raw)) != Some(file)
            ==> allowlist::populated(Some(raw), Some(file)) == allowlist::spliced(
            file,
            allowlist::listed(raw),
        ),
{
}

/// The list is found again, at the same place, in a file that was written.
proof fn lemma_same_start(file: Seq<char>, added: Seq<char>, tail: Seq<char>)
    requires
        allowlist::list_start(file) is Some,
    ensures
        0 <= allowlist::list_start(file)->0 <= file.len(),
        allowlist::list_start(file.take(allowlist::list_start(file)->0) + added + tail)
            == allowlist::list_start(file),
{
    let marker = allowlist::URLS_MARKER@;
    let start = allowlist::list_start(file)->0;
    let at = start - marker.len();
    text::lemma_find_text_range(file, marker);
    let written = file.take(start) + added + tail;
    assert(written.subrange(at, start) =~= file.subrange(at, start));
    assert(text::occurs_at(written, marker, at));
    assert forall|j: int| 0 <= j < at implies !#[trigger] text::occurs_at(written, marker, j) by {
        assert(!text::occurs_at(file, marker, j));
        assert(written.subrange(j, j + marker.len()) =~= file.subrange(j, j + marker.len()));
    }
    text::lemma_find_text(written, marker, at);
}

/// The addresses of a written file end where they ended, where none of them
/// holds a closing bracket.
proof fn lemma_same_end(added: Seq<char>, tail: Seq<char>)
    requires
        !added.contains(']'),
        tail.len() > 0,
        tail[0] == ']',
    ensures
        text::find(added + tail, ']') == added.len(),
{
    let s = added + tail;
    assert forall|j: int| 0 <= j < added.len() implies s[j] != ']' by {
        assert(added.contains(added[j]));
    }
    text::lemma_find(s, ']', added.len() as int);
}

/// What a written file is made of.
proof fn lemma_written(file: Seq<char>, origins: Seq<Seq<char>>)
    requires
        allowlist::spliced(file, origins) is Some,
    ensures
        ({
            let start = allowlist::list_start(file)->0;
            let end = start + text::find(file.skip(start), ']');
            &&& allowlist::list_start(file) is Some
            &&& 0 <= start <= end < file.len()
            &&& file[end] == ']'
            &&& allowlist::spliced(file, origins) == Some(
                file.take(start) + allowlist::items(origins) + file.skip(end),
            )
        }),
{
    text::lemma_find_text_range(file, allowlist::URLS_MARKER@);
    let start = allowlist::list_start(file)->0;
    text::lemma_find_range(file.skip(start), ']');
}

/// Writing a list takes the one before away: the file is as if the first had
/// never been written, where none of its addresses holds a bracket.
pub proof fn law_the_last_list_counts(
    file: Seq<char>,
    first: Seq<Seq<char>>,
    second: Seq<Seq<char>>,
)
    requires
        allowlist::spliced(file, first) is Some,
        !allowlist::items(first).contains('['),
        !allowlist::items(first).contains(']'),
    ensures
        allowlist::spliced(allowlist::spliced(file, first)->0, second) == allowlist::spliced(
            file,
            second,
        ),
{
    lemma_written(file, first);
    let start = allowlist::list_start(file)->0;
    let end = start + text::find(file.skip(start), ']');
    let added = allowlist::items(first);
    let tail = file.skip(end);
    let written = file.take(start) + added + tail;
    lemma_same_start(file, added, tail);
    lemma_same_end(added, tail);
    assert(written.skip(start) =~= added + tail);
    assert((added + tail).take(added.len() as int) =~= added);
    assert(written.take(start) =~= file.take(start));
    assert(written.skip(start + added.len()) =~= tail);
}

/// Nothing outside the list changes: what stands before it and after it is
/// what stood there.
pub proof fn law_only_the_list_changes(file: Seq<char>, origins: Seq<Seq<char>>)
    requires
        allowlist::spliced(file, origins) is Some,
    ensures
        ({
            let start = allowlist::list_start(file)->0;
            let end = start + text::find(file.skip(start), ']');
            let written = allowlist::spliced(file, origins)->0;
            let back = start + allowlist::items(origins).len();
            &&& 0 <= start <= end < file.len()
            &&& written.take(start) == file.take(start)
            &&& written.skip(back) == file.skip(end)
            &&& written.subrange(start, back) == allowlist::items(origins)
        }),
{
    lemma_written(file, origins);
    let start = allowlist::list_start(file)->0;
    let end = start + text::find(file.skip(start), ']');
    let added = allowlist::items(origins);
    let written = file.take(start) + added + file.skip(end);
    assert(written.take(start) =~= file.take(start));
    assert(written.skip(start + added.len()) =~= file.skip(end));
    assert(written.subrange(start, start + added.len()) =~= added);
}

/// A second build with the same list finds nothing to write, unless an address
/// closes a bracket that none has opened.
pub proof fn law_second_build_writes_nothing(raw: Option<Seq<char>>, file: Option<Seq<char>>)
    requires
        allowlist::populated(raw, file) is Some,
        ({
            let added = allowlist::items(allowlist::listed(raw->0));
            ||| !added.contains(']')
            ||| text::find(added, '[') < text::find(added, ']')
        }),
    ensures
        allowlist::populated(raw, allowlist::populated(raw, file)) is None,
{
    let origins = allowlist::listed(raw->0);
    let added = allowlist::items(origins);
    let f = file->0;
    lemma_written(f, origins);
    let start = allowlist::list_start(f)->0;
    let end = start + text::find(f.skip(start), ']');
    let tail = f.skip(end);
    let written = f.take(start) + added + tail;
    lemma_same_start(f, added, tail);
    assert(written.skip(start) =~= added + tail);
    if !added.contains(']') {
        lemma_same_end(added, tail);
        assert((added + tail).take(added.len() as int) =~= added);
        assert(written.take(start) =~= f.take(start));
        assert(written.skip(start + added.len()) =~= tail);
    } else {
        text::lemma_find_range(added, '[');
        text::lemma_find_range(added, ']');
        let open = text::find(added, '[');
        let close = text::find(added, ']');
        let rest = added + tail;
        assert forall|j: int| 0 <= j < close implies rest[j] != ']' by {
            assert(added[j] != ']');
        }
        assert(close < added.len()) by {
            let j = choose|j: int| 0 <= j < added.len() && added[j] == ']';
            assert(added[j] == ']');
        }
        text::lemma_find(rest, ']', close);
        let held = text::before(rest, ']');
        assert(held[open] == '[');
        assert(held.contains('['));
    }
}

} // verus!
