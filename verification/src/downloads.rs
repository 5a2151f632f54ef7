//! Downloads that the webview makes itself, and names of local files.

use std::path::PathBuf;

use vstd::prelude::*;

use crate::text;

verus! {

/// A download that the webview made.
#[derive(Debug)]
pub struct DownloadRecord {
    pub url: String,
    pub path: Option<PathBuf>,
    pub success: bool,
    pub requested_at_secs: u64,
}

/// The characters that file names do without: separators, what some file
/// system reserves, and control characters.
pub open spec fn reserved(c: char) -> bool {
    let u = c as u32;
    ||| c == '/'
    ||| c == '\\'
    ||| c == ':'
    ||| c == '*'
    ||| c == '?'
    ||| c == '"'
    ||| c == '<'
    ||| c == '>'
    ||| c == '|'
    ||| u < 0x20
    ||| 0x7f <= u <= 0x9f
}

/// A character of a file name.
pub open spec fn plain(c: char) -> char {
    if reserved(c) {
        '_'
    } else {
        c
    }
}

/// A file name with an underscore for each reserved character and no dots at
/// its start; `None` where nothing is left.
pub open spec fn file_name(raw: Seq<char>) -> Option<Seq<char>> {
    let name = text::trim_start(raw.map_values(|c: char| plain(c)), '.');
    if name.len() == 0 {
        None
    } else {
        Some(name)
    }
}

/// A character of a file name.
fn plain_char(c: char) -> (r: char)
    ensures
        r == plain(c),
{
    let u: u32 = c as u32;
    if c == '/' || c == '\\' || c == ':' || c == '*' || c == '?' || c == '"' || c == '<' || c == '>'
        || c == '|' || u < 0x20 || (0x7f <= u && u <= 0x9f) {
        '_'
    } else {
        c
    }
}

/// Makes a file name that no file system takes for anything else.
pub fn sanitize_filename(raw: &str) -> (r: Option<String>)
    ensures
        text::opt_text(r) == file_name(raw@),
{
    let v = text::chars_of(raw);
    let ghost all = raw@.map_values(|c: char| plain(c));
    let mut out = String::new();
    let mut i: usize = 0;
    proof {
        assert(out@ =~= all.take(0));
    }
    while i < v.len()
        invariant
            v@ == raw@,
            all == raw@.map_values(|c: char| plain(c)),
            i <= v@.len(),
            out@ == all.take(i as int),
        decreases v@.len() - i,
    {
        out.push(plain_char(v[i]));
        proof {
            assert(all.take(i + 1) =~= all.take(i as int).push(plain(raw@[i as int])));
        }
        i = i + 1;
    }
    proof {
        assert(all.take(i as int) =~= all);
    }
    let name = text::trim_start_of(out.as_str(), '.');
    if name.is_empty() {
        None
    } else {
        Some(name.to_string())
    }
}

} // verus!
