//! The block of file contents that is handed to the author of a change block.

use crate::text::{append_chars, chars_of, string_of};
use vstd::prelude::*;

verus! {

/// The entry of one file: its content between two marks, the first of which
/// names its path. The content ends with a line feed, added where it has none.
pub open spec fn file_entry(path: Seq<char>, content: Seq<char>) -> Seq<char> {
    "<FILE_CONTENT path=\""@ + path + "\">\n"@ + content + (if content.len() > 0 && content.last()
        == '\n' {
        Seq::<char>::empty()
    } else {
        seq!['\n']
    }) + "</FILE_CONTENT>\n\n"@
}

/// The text of a file path and a file content, as a pair of texts.
pub open spec fn file_views(files: Seq<(String, String)>) -> Seq<(Seq<char>, Seq<char>)> {
    files.map_values(|f: (String, String)| (f.0@, f.1@))
}

/// The entries of the first `k` files, one after the other.
pub open spec fn file_entries(files: Seq<(Seq<char>, Seq<char>)>, k: nat) -> Seq<char>
    decreases k,
{
    if k == 0 {
        Seq::empty()
    } else {
        file_entries(files, (k - 1) as nat) + file_entry(files[k - 1].0, files[k - 1].1)
    }
}

/// The block for `files`, each a path and a content; none for no files.
pub open spec fn files_context(files: Seq<(Seq<char>, Seq<char>)>) -> Option<Seq<char>> {
    if files.len() == 0 {
        None
    } else {
        Some(file_entries(files, files.len()))
    }
}

/// The entry of one file in the block.
pub fn format_file_entry(path: &str, content: &str) -> (r: String)
    ensures
        r@ == file_entry(path@, content@),
{
    let text = chars_of(content);
    let mut out = chars_of("<FILE_CONTENT path=\"");
    append_chars(&mut out, &chars_of(path));
    append_chars(&mut out, &chars_of("\">\n"));
    append_chars(&mut out, &text);
    if !(text.len() > 0 && text[text.len() - 1] == '\n') {
        out.push('\n');
    }
    let ghost before = out@;
    append_chars(&mut out, &chars_of("</FILE_CONTENT>\n\n"));
    assert(out@ =~= file_entry(path@, content@));
    string_of(&out)
}

/// The block for `files`, each given as its path and its content.
pub fn format_files_context(files: &Vec<(String, String)>) -> (r: Option<String>)
    ensures
        crate::file_directives::string_option_view(r) == files_context(file_views(files@)),
{
    let ghost fv = file_views(files@);
    if files.len() == 0 {
        return None;
    }
    let mut out: Vec<char> = Vec::new();
    let mut k: usize = 0;
    while k < files.len()
        invariant
            k <= files.len(),
            fv == file_views(files@),
            out@ == file_entries(fv, k as nat),
        decreases files.len() - k,
    {
        assert(fv[k as int] == (files@[k as int].0@, files@[k as int].1@));
        let entry = format_file_entry(files[k].0.as_str(), files[k].1.as_str());
        append_chars(&mut out, &chars_of(entry.as_str()));
        k += 1;
    }
    Some(string_of(&out))
}

} // verus!
