//! Reading the directives out of a text: the first `FILE_CHANGES` block is
//! found, and each tag in it becomes a directive.

use crate::error::{Error, ErrorView};
use crate::file_changes::FileChanges;
use crate::file_directives::{
    content_of, directive_views, Content, DirectiveView, FileDirective,
};
use crate::hashline::edit::{edit_views, parse_edit, parse_edit_spec, EditView, HashlineEdit};
use crate::text::{
    append_chars, chars_eq, chars_of, find_chars_from, find_from, index_of, lines, lines_chars,
    slice_chars, string_of, texts, trailing_whitespace_len, trim, trim_chars, trim_end, whitespace,
};
use vstd::prelude::*;

verus! {

// ---------------------------------------------------------------------------
// Tags, as the tag extractor gives them
// ---------------------------------------------------------------------------

/// A tag with its attributes and what stands between its two marks.
#[derive(Debug, Clone)]
pub struct TagElem {
    pub tag: String,
    /// The attributes, each name once.
    pub attrs: Vec<(String, String)>,
    pub content: String,
}

/// What a `TagElem` stands for.
pub struct TagElemView {
    pub tag: Seq<char>,
    pub attrs: Map<Seq<char>, Seq<char>>,
    pub content: Seq<char>,
}

/// The attributes as a map from name to value; of two values under one name,
/// the later.
pub open spec fn attrs_map(pairs: Seq<(String, String)>) -> Map<Seq<char>, Seq<char>>
    decreases pairs.len(),
{
    if pairs.len() == 0 {
        Map::empty()
    } else {
        attrs_map(pairs.drop_last()).insert(pairs.last().0@, pairs.last().1@)
    }
}

impl View for TagElem {
    type V = TagElemView;

    open spec fn view(&self) -> TagElemView {
        TagElemView { tag: self.tag@, attrs: attrs_map(self.attrs@), content: self.content@ }
    }
}

/// A piece of a text: a tag, or the text between two tags.
#[derive(Debug, Clone)]
pub enum MarkupPart {
    Text(String),
    Tag(TagElem),
}

/// What a `MarkupPart` stands for.
pub enum PartView {
    Text(Seq<char>),
    Tag(TagElemView),
}

impl View for MarkupPart {
    type V = PartView;

    open spec fn view(&self) -> PartView {
        match *self {
            MarkupPart::Text(t) => PartView::Text(t@),
            MarkupPart::Tag(e) => PartView::Tag(e@),
        }
    }
}

/// The views of a list of parts.
pub open spec fn part_views(v: Seq<MarkupPart>) -> Seq<PartView> {
    v.map_values(|p: MarkupPart| p@)
}

/// The texts of a list of names.
pub open spec fn name_texts(v: Seq<&str>) -> Seq<Seq<char>> {
    v.map_values(|s: &str| s@)
}

/// The parts that the tag extractor finds in `input` for the tags `tag_names`,
/// in the order of the text; the text between the tags is among them where
/// `capture_text` is set.
pub uninterp spec fn markup_parts(
    input: Seq<char>,
    tag_names: Seq<Seq<char>>,
    capture_text: bool,
) -> Seq<PartView>;

/// Whether a text can be the name of a tag: it holds no `>`, the mark that
/// ends a tag.
pub open spec fn is_tag_name(name: Seq<char>) -> bool {
    forall|i: int| 0 <= i < name.len() ==> #[trigger] name[i] != '>'
}

/// `markex::tag::extract`, with XML marks and without closing tags by itself:
/// the parts are a function of the text, the names and the option alone; they
/// are named, not described. Each part is handed over as it is, the
/// attributes of a tag as pairs. A name that holds `>` is left out: the
/// extractor slices wrongly on it.
#[verifier::external_body]
fn extract_parts(input: &str, tag_names: &Vec<&str>, capture_text: bool) -> (r: Vec<MarkupPart>)
    requires
        forall|i: int| 0 <= i < tag_names.len() ==> is_tag_name(#[trigger] tag_names@[i]@),
    ensures
        part_views(r@) == markup_parts(input@, name_texts(tag_names@), capture_text),
{
    let options = markex::tag::TagOptions::default().with_capture_text(capture_text);
    markex::tag::extract(input, tag_names, options)
        .into_parts()
        .into_iter()
        .map(|part| match part {
            markex::tag::Part::Text(text) => MarkupPart::Text(text),
            markex::tag::Part::TagElem(elem) => MarkupPart::Tag(TagElem {
                tag: elem.tag,
                attrs: elem.attrs.unwrap_or_default().into_iter().collect(),
                content: elem.content,
            }),
        })
        .collect()
}

/// The tags among the first `k` parts, in order.
pub open spec fn tags_in(parts: Seq<PartView>, k: nat) -> Seq<TagElemView>
    decreases k,
{
    if k == 0 {
        Seq::empty()
    } else {
        let before = tags_in(parts, (k - 1) as nat);
        match parts[k - 1] {
            PartView::Tag(e) => before.push(e),
            PartView::Text(_) => before,
        }
    }
}

/// The text between the tags among the first `k` parts, put together.
pub open spec fn text_in(parts: Seq<PartView>, k: nat) -> Seq<char>
    decreases k,
{
    if k == 0 {
        Seq::empty()
    } else {
        let before = text_in(parts, (k - 1) as nat);
        match parts[k - 1] {
            PartView::Tag(_) => before,
            PartView::Text(t) => before + t,
        }
    }
}

/// The views of a list of tags.
pub open spec fn tag_views(v: Seq<TagElem>) -> Seq<TagElemView> {
    v.map_values(|e: TagElem| e@)
}

/// The tags of `parts`, and the text between them.
pub fn split_parts(parts: Vec<MarkupPart>) -> (r: (Vec<TagElem>, String))
    ensures
        tag_views(r.0@) == tags_in(part_views(parts@), parts.len() as nat),
        r.1@ == text_in(part_views(parts@), parts.len() as nat),
{
    let ghost pv = part_views(parts@);
    let mut tags: Vec<TagElem> = Vec::new();
    let mut text: Vec<char> = Vec::new();
    let mut k: usize = 0;
    assert(tag_views(tags@) =~= Seq::<TagElemView>::empty());
    while k < parts.len()
        invariant
            k <= parts.len(),
            pv == part_views(parts@),
            tag_views(tags@) == tags_in(pv, k as nat),
            text@ == text_in(pv, k as nat),
        decreases parts.len() - k,
    {
        assert(pv[k as int] == parts@[k as int]@);
        match &parts[k] {
            MarkupPart::Text(t) => {
                append_chars(&mut text, &chars_of(t.as_str()));
            },
            MarkupPart::Tag(e) => {
                let ghost before = tag_views(tags@);
                let copy = copy_elem(e);
                tags.push(copy);
                assert(tag_views(tags@) =~= before.push(e@));
            },
        }
        k += 1;
    }
    (tags, string_of(&text))
}

fn copy_elem(e: &TagElem) -> (r: TagElem)
    ensures
        r@ == e@,
{
    let mut attrs: Vec<(String, String)> = Vec::new();
    let mut i: usize = 0;
    assert(e.attrs@.take(0) =~= Seq::<(String, String)>::empty());
    while i < e.attrs.len()
        invariant
            i <= e.attrs.len(),
            attrs_map(attrs@) == attrs_map(e.attrs@.take(i as int)),
        decreases e.attrs.len() - i,
    {
        let ghost before = attrs@;
        let pair = (e.attrs[i].0.clone(), e.attrs[i].1.clone());
        attrs.push(pair);
        proof {
            assert(attrs@.drop_last() =~= before);
            assert(e.attrs@.take(i + 1).drop_last() =~= e.attrs@.take(i as int));
        }
        i += 1;
    }
    assert(e.attrs@.take(e.attrs.len() as int) == e.attrs@);
    TagElem { tag: e.tag.clone(), attrs, content: e.content.clone() }
}

/// The value of the attribute `name`, if the tag has it.
pub fn attr(attrs: &Vec<(String, String)>, name: &str) -> (r: Option<String>)
    ensures
        match r {
            Some(v) => attrs_map(attrs@).contains_key(name@) && attrs_map(attrs@)[name@] == v@,
            None => !attrs_map(attrs@).contains_key(name@),
        },
{
    let key = chars_of(name);
    let mut found: Option<String> = None;
    let mut i: usize = 0;
    assert(attrs@.take(0) =~= Seq::<(String, String)>::empty());
    while i < attrs.len()
        invariant
            i <= attrs.len(),
            key@ == name@,
            match found {
                Some(v) => attrs_map(attrs@.take(i as int)).contains_key(name@) && attrs_map(
                    attrs@.take(i as int),
                )[name@] == v@,
                None => !attrs_map(attrs@.take(i as int)).contains_key(name@),
            },
        decreases attrs.len() - i,
    {
        proof {
            assert(attrs@.take(i + 1).drop_last() =~= attrs@.take(i as int));
        }
        if chars_eq(&chars_of(attrs[i].0.as_str()), &key) {
            found = Some(attrs[i].1.clone());
        }
        i += 1;
    }
    assert(attrs@.take(attrs.len() as int) == attrs@);
    found
}

// ---------------------------------------------------------------------------
// Tags that close themselves
// ---------------------------------------------------------------------------

/// `content` from `pos` on, with each tag `<NAME ... />` written as
/// `<NAME ...></NAME>`: a tag begins where `<NAME` stands, and ends at the next
/// `>`; it closes itself where `/` is the last character before that `>`,
/// whitespace apart. Without a `>` the rest is left as it is.
pub open spec fn expand_from(content: Seq<char>, name: Seq<char>, pos: int) -> Seq<char>
    decreases content.len() - pos,
{
    match find_from(content, seq!['<'] + name, pos) {
        None => content.skip(pos),
        Some(start) => {
            let gt = start + index_of(content.skip(start), '>');
            if pos <= gt < content.len() {
                let t = trim_end(content.take(gt));
                if t.len() > pos && t.last() == '/' {
                    content.subrange(pos, t.len() - 1) + "></"@ + name + ">"@ + expand_from(
                        content,
                        name,
                        gt + 1,
                    )
                } else {
                    content.subrange(pos, gt + 1) + expand_from(content, name, gt + 1)
                }
            } else {
                content.skip(pos)
            }
        },
    }
}

/// `content` with the self-closing tags of one name written out.
pub open spec fn expand_tag(content: Seq<char>, name: Seq<char>) -> Seq<char> {
    expand_from(content, name, 0)
}

/// `content` with the self-closing directive tags written out, one name after
/// the other.
pub open spec fn expand_self_closing(content: Seq<char>) -> Seq<char> {
    expand_tag(
        expand_tag(
            expand_tag(expand_tag(expand_tag(content, "FILE_NEW"@), "FILE_PATCH"@), "FILE_RENAME"@),
            "FILE_DELETE"@,
        ),
        "FILE_HASHLINE_PATCH"@,
    )
}

fn expand_one(content: &Vec<char>, name: &str) -> (r: Vec<char>)
    ensures
        r@ == expand_tag(content@, name@),
{
    let ghost c = content@;
    let mut pattern: Vec<char> = Vec::new();
    pattern.push('<');
    append_chars(&mut pattern, &chars_of(name));
    assert(pattern@ =~= seq!['<'] + name@);
    let mut out: Vec<char> = Vec::new();
    let mut pos: usize = 0;
    let mut done = false;
    assert(out@ + expand_from(c, name@, 0) =~= expand_from(c, name@, 0));
    while !done
        invariant
            pos <= content.len(),
            c == content@,
            pattern@ == seq!['<'] + name@,
            !done ==> expand_tag(c, name@) == out@ + expand_from(c, name@, pos as int),
            done ==> expand_tag(c, name@) == out@,
        decreases content.len() - pos + if done { 0int } else { 1int },
    {
        let ghost before = out@;
        match find_chars_from(content, &pattern, pos) {
            None => {
                append_chars(&mut out, &slice_chars(content, pos, content.len()));
                assert(c.skip(pos as int) =~= c.subrange(pos as int, c.len() as int));
                done = true;
            },
            Some(start) => {
                let rest = slice_chars(content, start, content.len());
                assert(rest@ =~= c.skip(start as int));
                let gt = start + crate::text::find_char(&rest, '>');
                if gt < content.len() {
                    let head = slice_chars(content, 0, gt);
                    assert(head@ =~= c.take(gt as int));
                    let w = trailing_whitespace_len(&head);
                    let t_len = gt - w;
                    if t_len > pos && content[t_len - 1] == '/' {
                        append_chars(&mut out, &slice_chars(content, pos, t_len - 1));
                        append_chars(&mut out, &chars_of("></"));
                        append_chars(&mut out, &chars_of(name));
                        append_chars(&mut out, &chars_of(">"));
                        assert(out@ + expand_from(c, name@, gt + 1) =~= before + (c.subrange(
                            pos as int,
                            t_len - 1,
                        ) + "></"@ + name@ + ">"@ + expand_from(c, name@, gt + 1)));
                    } else {
                        append_chars(&mut out, &slice_chars(content, pos, gt + 1));
                        assert(out@ + expand_from(c, name@, gt + 1) =~= before + (c.subrange(
                            pos as int,
                            gt + 1,
                        ) + expand_from(c, name@, gt + 1)));
                    }
                    pos = gt + 1;
                } else {
                    append_chars(&mut out, &slice_chars(content, pos, content.len()));
                    assert(c.skip(pos as int) =~= c.subrange(pos as int, c.len() as int));
                    done = true;
                }
            },
        }
    }
    out
}

/// Writes the self-closing directive tags of `content` out, so that each has
/// an opening and a closing mark.
pub fn expand_self_closing_tags(content: String) -> (r: String)
    ensures
        r@ == expand_self_closing(content@),
{
    let c0 = chars_of(content.as_str());
    let c1 = expand_one(&c0, "FILE_NEW");
    let c2 = expand_one(&c1, "FILE_PATCH");
    let c3 = expand_one(&c2, "FILE_RENAME");
    let c4 = expand_one(&c3, "FILE_DELETE");
    let c5 = expand_one(&c4, "FILE_HASHLINE_PATCH");
    string_of(&c5)
}

// ---------------------------------------------------------------------------
// From a tag to a directive
// ---------------------------------------------------------------------------

/// The path to report for a tag that could not be read: its `file_path`, or
/// else its `to_path`, or else its `from_path`.
pub open spec fn path_hint(attrs: Map<Seq<char>, Seq<char>>) -> Option<Seq<char>> {
    if attrs.contains_key("file_path"@) {
        Some(attrs["file_path"@])
    } else if attrs.contains_key("to_path"@) {
        Some(attrs["to_path"@])
    } else if attrs.contains_key("from_path"@) {
        Some(attrs["from_path"@])
    } else {
        None
    }
}

/// The value of an attribute that a tag must have.
pub open spec fn required_attr(e: TagElemView, name: Seq<char>) -> Result<Seq<char>, ErrorView> {
    if e.attrs.contains_key(name) {
        Ok(e.attrs[name])
    } else {
        Err(ErrorView::ParseMissingAttribute { tag: e.tag, attr: name })
    }
}

/// The edits that the first `k` lines of a payload stand for: each line is
/// trimmed, an empty line is passed over, and the first line that is no edit
/// ends the reading with its message.
pub open spec fn edits_in(payload_lines: Seq<Seq<char>>, k: nat) -> Result<Seq<EditView>, Seq<char>>
    decreases k,
{
    if k == 0 {
        Ok(Seq::empty())
    } else {
        match edits_in(payload_lines, (k - 1) as nat) {
            Err(m) => Err(m),
            Ok(edits) => {
                let line = trim(payload_lines[k - 1]);
                if line.len() == 0 {
                    Ok(edits)
                } else {
                    match parse_edit_spec(line) {
                        Err(m) => Err(m),
                        Ok(e) => Ok(edits.push(e)),
                    }
                }
            },
        }
    }
}

/// The directive that a tag stands for, or why it stands for none.
pub open spec fn read_directive(e: TagElemView) -> Result<DirectiveView, ErrorView> {
    if e.tag == "FILE_NEW"@ {
        match required_attr(e, "file_path"@) {
            Err(err) => Err(err),
            Ok(file_path) => Ok(DirectiveView::New { file_path, content: content_of(e.content) }),
        }
    } else if e.tag == "FILE_PATCH"@ {
        match required_attr(e, "file_path"@) {
            Err(err) => Err(err),
            Ok(file_path) => Ok(DirectiveView::Patch { file_path, content: content_of(e.content) }),
        }
    } else if e.tag == "FILE_HASHLINE_PATCH"@ {
        match required_attr(e, "file_path"@) {
            Err(err) => Err(err),
            Ok(file_path) => match edits_in(lines(e.content), lines(e.content).len()) {
                Err(m) => Err(ErrorView::Custom(m)),
                Ok(edits) => Ok(DirectiveView::HashlinePatch { file_path, edits }),
            },
        }
    } else if e.tag == "FILE_RENAME"@ {
        match required_attr(e, "from_path"@) {
            Err(err) => Err(err),
            Ok(from_path) => match required_attr(e, "to_path"@) {
                Err(err) => Err(err),
                Ok(to_path) => Ok(DirectiveView::Rename { from_path, to_path }),
            },
        }
    } else if e.tag == "FILE_DELETE"@ {
        match required_attr(e, "file_path"@) {
            Err(err) => Err(err),
            Ok(file_path) => Ok(DirectiveView::Delete { file_path }),
        }
    } else {
        Err(ErrorView::ParseUnknownDirectiveTag { tag: e.tag })
    }
}

/// The directive of a tag: what the tag stands for, or, where it stands for
/// none, a `Fail` with the name of the tag, the path it hints at, and the
/// message of the error.
pub open spec fn directive_for(e: TagElemView) -> DirectiveView {
    match read_directive(e) {
        Ok(d) => d,
        Err(err) => DirectiveView::Fail {
            kind: e.tag,
            file_path: path_hint(e.attrs),
            error_msg: err.message(),
        },
    }
}

fn require_attr(elem: &TagElem, name: &str) -> (r: Result<String, Error>)
    ensures
        match r {
            Ok(v) => required_attr(elem@, name@) == Ok::<Seq<char>, ErrorView>(v@),
            Err(e) => required_attr(elem@, name@) == Err::<Seq<char>, ErrorView>(e@),
        },
{
    match attr(&elem.attrs, name) {
        Some(v) => Ok(v),
        None => Err(Error::parse_missing_attribute(elem.tag.as_str(), name)),
    }
}

fn read_edits(payload: &str) -> (r: Result<Vec<HashlineEdit>, String>)
    ensures
        match r {
            Ok(edits) => edits_in(lines(payload@), lines(payload@).len()) == Ok::<
                Seq<EditView>,
                Seq<char>,
            >(edit_views(edits@)),
            Err(m) => edits_in(lines(payload@), lines(payload@).len()) == Err::<
                Seq<EditView>,
                Seq<char>,
            >(m@),
        },
{
    let payload_lines = lines_chars(&chars_of(payload));
    let ghost pl = texts(payload_lines@);
    let mut edits: Vec<HashlineEdit> = Vec::new();
    let mut k: usize = 0;
    assert(edit_views(edits@) =~= Seq::<EditView>::empty());
    while k < payload_lines.len()
        invariant
            k <= payload_lines.len(),
            pl == texts(payload_lines@),
            pl == lines(payload@),
            edits_in(pl, k as nat) == Ok::<Seq<EditView>, Seq<char>>(edit_views(edits@)),
        decreases payload_lines.len() - k,
    {
        assert(pl[k as int] == payload_lines@[k as int]@);
        let line = trim_chars(&payload_lines[k]);
        if line.len() > 0 {
            let text = string_of(&line);
            match parse_edit(text.as_str()) {
                Err(m) => {
                    proof {
                        lemma_edits_fail(pl, (k + 1) as nat);
                    }
                    return Err(m);
                },
                Ok(e) => {
                    let ghost before = edit_views(edits@);
                    let ghost ev = e@;
                    edits.push(e);
                    assert(edit_views(edits@) =~= before.push(ev));
                },
            }
        }
        k += 1;
    }
    Ok(edits)
}

/// A payload that fails at one line fails as a whole.
pub proof fn lemma_edits_fail(payload_lines: Seq<Seq<char>>, k: nat)
    requires
        k <= payload_lines.len(),
        edits_in(payload_lines, k) is Err,
    ensures
        edits_in(payload_lines, payload_lines.len()) == edits_in(payload_lines, k),
    decreases payload_lines.len() - k,
{
    if k < payload_lines.len() {
        lemma_edits_fail(payload_lines, k + 1);
    }
}

fn is_named(elem: &TagElem, name: &str) -> (r: bool)
    ensures
        r == (elem@.tag == name@),
{
    chars_eq(&chars_of(elem.tag.as_str()), &chars_of(name))
}

fn read_tag(elem: &TagElem) -> (r: Result<FileDirective, Error>)
    ensures
        match r {
            Ok(d) => read_directive(elem@) == Ok::<DirectiveView, ErrorView>(d@),
            Err(e) => read_directive(elem@) == Err::<DirectiveView, ErrorView>(e@),
        },
{
    if is_named(elem, "FILE_NEW") {
        match require_attr(elem, "file_path") {
            Err(e) => Err(e),
            Ok(file_path) => Ok(
                FileDirective::New { file_path, content: Content::from_raw(elem.content.clone()) },
            ),
        }
    } else if is_named(elem, "FILE_PATCH") {
        match require_attr(elem, "file_path") {
            Err(e) => Err(e),
            Ok(file_path) => Ok(
                FileDirective::Patch {
                    file_path,
                    content: Content::from_raw(elem.content.clone()),
                },
            ),
        }
    } else if is_named(elem, "FILE_HASHLINE_PATCH") {
        match require_attr(elem, "file_path") {
            Err(e) => Err(e),
            Ok(file_path) => match read_edits(elem.content.as_str()) {
                Err(m) => Err(Error::Custom(m)),
                Ok(edits) => Ok(FileDirective::HashlinePatch { file_path, edits }),
            },
        }
    } else if is_named(elem, "FILE_RENAME") {
        match require_attr(elem, "from_path") {
            Err(e) => Err(e),
            Ok(from_path) => match require_attr(elem, "to_path") {
                Err(e) => Err(e),
                Ok(to_path) => Ok(FileDirective::Rename { from_path, to_path }),
            },
        }
    } else if is_named(elem, "FILE_DELETE") {
        match require_attr(elem, "file_path") {
            Err(e) => Err(e),
            Ok(file_path) => Ok(FileDirective::Delete { file_path }),
        }
    } else {
        Err(Error::parse_unknown_directive_tag(elem.tag.as_str()))
    }
}

fn hint_of(elem: &TagElem) -> (r: Option<String>)
    ensures
        crate::file_directives::string_option_view(r) == path_hint(elem@.attrs),
{
    match attr(&elem.attrs, "file_path") {
        Some(p) => Some(p),
        None => match attr(&elem.attrs, "to_path") {
            Some(p) => Some(p),
            None => attr(&elem.attrs, "from_path"),
        },
    }
}

/// The directive of one tag of a change block. A tag that cannot be read
/// gives a `Fail`, never an error.
pub fn directive_of(elem: &TagElem) -> (r: FileDirective)
    ensures
        r@ == directive_for(elem@),
{
    match read_tag(elem) {
        Ok(d) => d,
        Err(e) => FileDirective::Fail {
            kind: elem.tag.clone(),
            file_path: hint_of(elem),
            error_msg: e.message(),
        },
    }
}

// ---------------------------------------------------------------------------
// The change block
// ---------------------------------------------------------------------------

/// The names of the directive tags.
pub open spec fn directive_tag_names() -> Seq<Seq<char>> {
    seq![
        "FILE_NEW"@,
        "FILE_PATCH"@,
        "FILE_RENAME"@,
        "FILE_DELETE"@,
        "FILE_HASHLINE_PATCH"@,
    ]
}

/// The directives of the tags `tags`, in order.
pub open spec fn directives_for(tags: Seq<TagElemView>) -> Seq<DirectiveView> {
    tags.map_values(|e: TagElemView| directive_for(e))
}

/// The directives of a change block with the content `block`.
pub open spec fn directives_in(block: Seq<char>) -> Seq<DirectiveView> {
    let parts = markup_parts(expand_self_closing(block), directive_tag_names(), false);
    directives_for(tags_in(parts, parts.len()))
}

/// The directives of the first `FILE_CHANGES` block of a text, and, where
/// `extrude` is set, the text outside the blocks. A text without a block has
/// no directives.
pub open spec fn file_changes_in(input: Seq<char>, extrude: bool) -> (
    Seq<DirectiveView>,
    Option<Seq<char>>,
) {
    let parts = markup_parts(input, seq!["FILE_CHANGES"@], extrude);
    let blocks = tags_in(parts, parts.len());
    let extruded = if extrude {
        Some(text_in(parts, parts.len()))
    } else {
        None
    };
    if blocks.len() == 0 {
        (Seq::empty(), extruded)
    } else {
        (directives_in(blocks[0].content), extruded)
    }
}

/// The directives of the tags of a change block.
pub fn directives_of(tags: &Vec<TagElem>) -> (r: Vec<FileDirective>)
    ensures
        directive_views(r@) == directives_for(tag_views(tags@)),
{
    let mut out: Vec<FileDirective> = Vec::new();
    let mut i: usize = 0;
    while i < tags.len()
        invariant
            i <= tags.len(),
            out.len() == i,
            forall|j: int| 0 <= j < i ==> (#[trigger] out@[j])@ == directive_for(tags@[j]@),
        decreases tags.len() - i,
    {
        out.push(directive_of(&tags[i]));
        i += 1;
    }
    assert(directive_views(out@) =~= directives_for(tag_views(tags@)));
    out
}

/// Reads the first `FILE_CHANGES` block of `input`. The text outside the
/// blocks is given too where `extrude_other_content` is set.
pub fn extract_file_changes(input: &str, extrude_other_content: bool) -> (r: Result<
    (FileChanges, Option<String>),
    Error,
>)
    ensures
        r matches Ok((changes, extruded)) && (
        directive_views(changes.items()),
        crate::file_directives::string_option_view(extruded),
    ) == file_changes_in(input@, extrude_other_content),
{
    let outer_names: Vec<&str> = vec!["FILE_CHANGES"];
    assert(name_texts(outer_names@) =~= seq!["FILE_CHANGES"@]);
    proof {
        reveal_strlit("FILE_CHANGES");
        assert(is_tag_name("FILE_CHANGES"@));
    }
    let parts = extract_parts(input, &outer_names, extrude_other_content);
    assert(part_views(parts@).len() == parts.len());
    let (blocks, text) = split_parts(parts);
    assert(tag_views(blocks@).len() == blocks.len());
    let extruded = if extrude_other_content {
        Some(text)
    } else {
        None
    };
    if blocks.len() == 0 {
        let none: Vec<FileDirective> = Vec::new();
        assert(directive_views(none@) =~= Seq::<DirectiveView>::empty());
        return Ok((FileChanges::new(none), extruded));
    }
    assert(tag_views(blocks@)[0] == blocks@[0]@);
    let inner = expand_self_closing_tags(blocks[0].content.clone());
    let child_names: Vec<&str> = vec![
        "FILE_NEW",
        "FILE_PATCH",
        "FILE_RENAME",
        "FILE_DELETE",
        "FILE_HASHLINE_PATCH",
    ];
    assert(name_texts(child_names@) =~= directive_tag_names());
    proof {
        reveal_strlit("FILE_NEW");
        reveal_strlit("FILE_PATCH");
        reveal_strlit("FILE_RENAME");
        reveal_strlit("FILE_DELETE");
        reveal_strlit("FILE_HASHLINE_PATCH");
        assert(is_tag_name("FILE_NEW"@));
        assert(is_tag_name("FILE_PATCH"@));
        assert(is_tag_name("FILE_RENAME"@));
        assert(is_tag_name("FILE_DELETE"@));
        assert(is_tag_name("FILE_HASHLINE_PATCH"@));
    }
    let child_parts = extract_parts(inner.as_str(), &child_names, false);
    assert(part_views(child_parts@).len() == child_parts.len());
    let (tags, _) = split_parts(child_parts);
    let directives = directives_of(&tags);
    Ok((FileChanges::new(directives), extruded))
}

} // verus!
