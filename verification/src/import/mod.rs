//! Importing an EPUB's chapters: which are empty, the markdown each one
//! becomes, and the files they are written to.

use vstd::prelude::*;

use vstd::utf8::{encode_scalar, encode_utf8};

use crate::error::Error;
use crate::text::{decimal, is_ws, lit, push_char, replace_all, trim, trim_str, usize_to_string};

verus! {

/// What an import produced.
pub struct ImportReport {
    pub book_dir: String,
    pub chapters_imported: usize,
}

/// `html` without its tags: every character from a `<` up to the next `>`
/// is dropped.
pub open spec fn strip_tags(html: Seq<char>, in_tag: bool) -> Seq<char>
    decreases html.len(),
{
    if html.len() == 0 {
        Seq::empty()
    } else {
        let c = html[0];
        let rest = html.drop_first();
        if c == '<' {
            strip_tags(rest, true)
        } else if c == '>' {
            strip_tags(rest, false)
        } else if !in_tag {
            seq![c] + strip_tags(rest, in_tag)
        } else {
            strip_tags(rest, in_tag)
        }
    }
}

/// Removes HTML tags from a text.
pub fn strip_html_tags(html: &str) -> (r: String)
    ensures
        r@ == strip_tags(html@, false),
{
    let v = crate::text::chars_of(html);
    let mut out = String::new();
    let mut in_tag = false;
    let mut i: usize = 0;
    assert(v@.skip(0) =~= v@);
    while i < v.len()
        invariant
            i <= v.len(),
            out@ + strip_tags(v@.skip(i as int), in_tag) == strip_tags(v@, false),
        decreases v.len() - i,
    {
        let c = v[i];
        let ghost rest = v@.skip(i as int);
        assert(rest.drop_first() =~= v@.skip(i + 1));
        if c == '<' {
            in_tag = true;
        } else if c == '>' {
            in_tag = false;
        } else if !in_tag {
            let ghost before = out@;
            push_char(&mut out, c);
            assert(out@ + strip_tags(v@.skip(i + 1), in_tag) =~= before + strip_tags(rest, in_tag));
        }
        i = i + 1;
    }
    assert(v@.skip(v.len() as int) =~= Seq::<char>::empty());
    assert(out@ =~= strip_tags(v@, false));
    out
}

/// Whether a character is not whitespace.
pub open spec fn visible_char() -> spec_fn(char) -> bool {
    |c: char| !is_ws(c)
}

/// `s` without whitespace.
pub open spec fn without_ws(s: Seq<char>) -> Seq<char> {
    s.filter(visible_char())
}

/// The visible text of a chapter's HTML: line breaks made spaces, tags
/// removed, whitespace dropped.
pub open spec fn visible_text(html: Seq<char>) -> Seq<char> {
    without_ws(strip_tags(replace_all(replace_all(replace_all(html, "<br/>"@, " "@), "<br />"@, " "@), "<br>"@, " "@), false))
}

/// A chapter is empty when its visible text is under 50 bytes of UTF-8.
pub fn is_empty_chapter(html: &str) -> (r: bool)
    ensures
        r == (encode_utf8(visible_text(html@)).len() < 50),
{
    proof {
        reveal_strlit("<br/>");
        reveal_strlit("<br />");
        reveal_strlit("<br>");
    }
    let a = crate::text::replace_str(html, "<br/>", " ");
    let b = crate::text::replace_str(a.as_str(), "<br />", " ");
    let c = crate::text::replace_str(b.as_str(), "<br>", " ");
    let text = strip_html_tags(c.as_str());
    let v = crate::text::chars_of(text.as_str());
    let mut kept: Vec<char> = Vec::new();
    let mut i: usize = 0;
    let ghost pred = visible_char();
    while i < v.len()
        invariant
            i <= v.len(),
            pred == visible_char(),
            kept@ == v@.take(i as int).filter(pred),
        decreases v.len() - i,
    {
        proof {
            v@.take(i as int).lemma_filter_push(v@[i as int], pred);
            assert(v@.take(i + 1) =~= v@.take(i as int).push(v@[i as int]));
        }
        if !crate::text::is_whitespace(v[i]) {
            kept.push(v[i]);
        }
        i = i + 1;
    }
    assert(v@.take(v.len() as int) =~= v@);
    assert(kept@ == visible_text(html@));
    let mut bytes: usize = 0;
    let mut j: usize = 0;
    assert(kept@.skip(0) =~= kept@);
    while j < kept.len() && bytes < 50
        invariant
            j <= kept.len(),
            bytes <= 53,
            bytes < 50 ==> bytes + encode_utf8(kept@.skip(j as int)).len() == encode_utf8(kept@).len(),
            bytes >= 50 ==> encode_utf8(kept@).len() >= 50,
        decreases kept.len() - j,
    {
        assert(kept@.skip(j as int).drop_first() =~= kept@.skip(j + 1));
        bytes = bytes + utf8_width(kept[j]);
        j = j + 1;
    }
    if bytes < 50 {
        assert(kept@.skip(j as int) =~= Seq::<char>::empty());
    }
    bytes < 50
}

/// How many bytes of UTF-8 encode `c`.
fn utf8_width(c: char) -> (r: usize)
    ensures
        r == encode_scalar(c as u32).len(),
        1 <= r <= 4,
{
    let u = c as u32;
    if u <= 0x7F {
        1
    } else if u <= 0x7FF {
        2
    } else if u <= 0xFFFF {
        3
    } else {
        4
    }
}


/// The markdown that `htmd` makes of an HTML document with its default
/// options.
pub uninterp spec fn markdown_of(html: Seq<char>) -> Seq<char>;

/// `htmd::convert`: converts HTML to markdown with the default options.
/// Its source parses the whole text in one pass and always returns `Ok`;
/// what the markdown is is left to the name `markdown_of`.
#[verifier::external_body]
fn html_to_markdown(html: &str) -> (r: Result<String, std::io::Error>)
    ensures
        r is Ok,
        r is Ok ==> r->Ok_0@ == markdown_of(html@),
{
    htmd::convert(html)
}

/// The markdown a chapter's HTML becomes on import: none for an empty
/// chapter or one whose markdown is blank, else the markdown trimmed.
pub open spec fn imported_markdown(html: Seq<char>) -> Option<Seq<char>> {
    if encode_utf8(visible_text(html)).len() < 50 {
        None
    } else if trim(markdown_of(html)).len() == 0 {
        None
    } else {
        Some(trim(markdown_of(html)))
    }
}

/// The converted markdown of a non-empty chapter as it is written: trimmed,
/// and nothing when that leaves it blank.
pub fn markdown_to_keep(markdown: &str) -> (r: Option<String>)
    ensures
        trim(markdown@).len() == 0 ==> r.is_none(),
        trim(markdown@).len() > 0 ==> r.is_some() && r.unwrap()@ == trim(markdown@),
{
    let t = trim_str(markdown);
    if t.as_str().is_empty() {
        None
    } else {
        Some(t)
    }
}

/// The markdown to write for a chapter, if any.
pub fn chapter_markdown(html: &str) -> (r: Result<Option<String>, Error>)
    ensures
        r matches Ok(m) && match m {
            Some(s) => imported_markdown(html@) == Some(s@),
            None => imported_markdown(html@).is_none(),
        },
{
    if is_empty_chapter(html) {
        return Ok(None);
    }
    let markdown = match html_to_markdown(html) {
        Ok(m) => m,
        Err(e) => return Err(Error::io("Failed to convert chapter to markdown", e)),
    };
    Ok(markdown_to_keep(markdown.as_str()))
}

/// `n` written with at least three digits, zero-padded.
pub open spec fn padded3(n: nat) -> Seq<char> {
    if n < 10 {
        "00"@ + decimal(n)
    } else if n < 100 {
        "0"@ + decimal(n)
    } else {
        decimal(n)
    }
}

/// The file an imported chapter is written to: `NNN.md`.
pub fn chapter_file_name(n: usize) -> (r: String)
    ensures
        r@ == padded3(n as nat) + ".md"@,
{
    let mut r = if n < 10 {
        lit("00")
    } else if n < 100 {
        lit("0")
    } else {
        String::new()
    };
    let d = usize_to_string(n);
    r.append(d.as_str());
    r.append(".md");
    r
}

/// The markdown kept of each chapter, in order.
pub open spec fn kept_chapters(htmls: Seq<Seq<char>>) -> Seq<Seq<char>>
    decreases htmls.len(),
{
    if htmls.len() == 0 {
        Seq::empty()
    } else {
        match imported_markdown(htmls.last()) {
            Some(m) => kept_chapters(htmls.drop_last()).push(m),
            None => kept_chapters(htmls.drop_last()),
        }
    }
}

/// The files an import writes, from the HTML of the book's chapters in
/// spine order: the markdown of each chapter that is kept, named `001.md`,
/// `002.md`, ... in order.
pub fn import_chapter_files(htmls: &Vec<String>) -> (r: Result<Vec<(String, String)>, Error>)
    ensures
        r matches Ok(files) && files@.len() == kept_chapters(crate::text::views(htmls@)).len() && forall|i: int|
            0 <= i < files@.len() ==> (#[trigger] files@[i]).0@ == padded3((i + 1) as nat) + ".md"@
                && files@[i].1@ == kept_chapters(crate::text::views(htmls@))[i],
{
    let ghost hv = crate::text::views(htmls@);
    let mut files: Vec<(String, String)> = Vec::new();
    let mut i: usize = 0;
    while i < htmls.len()
        invariant
            i <= htmls.len(),
            hv == crate::text::views(htmls@),
            files@.len() == kept_chapters(hv.take(i as int)).len(),
            files@.len() <= i,
            forall|k: int|
                0 <= k < files@.len() ==> (#[trigger] files@[k]).0@ == padded3((k + 1) as nat) + ".md"@
                    && files@[k].1@ == kept_chapters(hv.take(i as int))[k],
        decreases htmls.len() - i,
    {
        proof {
            assert(hv.take(i + 1).drop_last() =~= hv.take(i as int));
            assert(hv.take(i + 1).last() == htmls@[i as int]@);
        }
        match chapter_markdown(htmls[i].as_str()) {
            Ok(Some(md)) => {
                let name = chapter_file_name(files.len() + 1);
                files.push((name, md));
            },
            Ok(None) => {},
            Err(e) => return Err(e),
        }
        i = i + 1;
    }
    assert(hv.take(htmls.len() as int) =~= hv);
    Ok(files)
}

} // verus!
