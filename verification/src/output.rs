//! Rendering a crawl's pages as plain text or Markdown.
//!
//! These renderings are pure functions of the page list. JSON renderings
//! are serialization and live with the caller, outside the engine.

use vstd::prelude::*;

use crate::crawler::{DocPage, DocPageView};
use crate::text::{space_char, trim_end_idx, trim_start_idx, trimmed};

verus! {

/// The output renderings a caller can ask for.
#[derive(Clone, Copy, Debug, PartialEq, Eq, Structural)]
pub enum OutputFormat {
    Json,
    PrettyJson,
    Txt,
    Markdown,
}

impl OutputFormat {
    /// The format's name, as written on the command line.
    pub fn name(&self) -> (r: &'static str)
        ensures
            *self is Json ==> r@ == "json"@,
            *self is PrettyJson ==> r@ == "pretty"@,
            *self is Txt ==> r@ == "txt"@,
            *self is Markdown ==> r@ == "markdown"@,
    {
        match self {
            OutputFormat::Json => "json",
            OutputFormat::PrettyJson => "pretty",
            OutputFormat::Txt => "txt",
            OutputFormat::Markdown => "markdown",
        }
    }
}

/// The decimal digit character for `n` in 0 to 9.
pub open spec fn dec_digit(n: int) -> char {
    if n == 0 { '0' }
    else if n == 1 { '1' }
    else if n == 2 { '2' }
    else if n == 3 { '3' }
    else if n == 4 { '4' }
    else if n == 5 { '5' }
    else if n == 6 { '6' }
    else if n == 7 { '7' }
    else if n == 8 { '8' }
    else { '9' }
}

/// The decimal rendering of a nonnegative number, most significant digit
/// first.
pub open spec fn dec_str(n: int) -> Seq<char>
    decreases n,
{
    if n < 0 {
        Seq::empty()
    } else if n < 10 {
        seq![dec_digit(n)]
    } else {
        dec_str(n / 10) + seq![dec_digit(n % 10)]
    }
}

fn digit_str(d: u64) -> (r: &'static str)
    requires
        d < 10,
    ensures
        r@ == seq![dec_digit(d as int)],
{
    proof {
        reveal_strlit("0");
        reveal_strlit("1");
        reveal_strlit("2");
        reveal_strlit("3");
        reveal_strlit("4");
        reveal_strlit("5");
        reveal_strlit("6");
        reveal_strlit("7");
        reveal_strlit("8");
        reveal_strlit("9");
    }
    let r = match d {
        0 => "0",
        1 => "1",
        2 => "2",
        3 => "3",
        4 => "4",
        5 => "5",
        6 => "6",
        7 => "7",
        8 => "8",
        _ => "9",
    };
    assert(r@ =~= seq![dec_digit(d as int)]);
    r
}

/// Append the decimal rendering of `n`.
fn append_number(out: &mut String, n: u64)
    ensures
        final(out)@ == old(out)@ + dec_str(n as int),
    decreases n,
{
    if n >= 10 {
        append_number(out, n / 10);
    }
    out.append(digit_str(n % 10));
    assert(final(out)@ =~= old(out)@ + dec_str(n as int));
}

/// The plain-text block of one page.
pub open spec fn text_block(p: DocPageView) -> Seq<char> {
    "标题: "@ + p.title + "\n"@ + "URL: "@ + p.url + "\n"@ + "内容:\n"@ + p.content + "\n"@
        + "\n---\n\n"@
}

/// The plain-text blocks of `pages[i..]`, in order.
pub open spec fn text_from(pages: Seq<DocPageView>, i: int) -> Seq<char>
    decreases pages.len() - i,
{
    if i < 0 || i >= pages.len() {
        Seq::empty()
    } else {
        text_block(pages[i]) + text_from(pages, i + 1)
    }
}

/// The plain-text rendering of a page list: one block per page, in order.
pub open spec fn text_output(pages: Seq<DocPageView>) -> Seq<char> {
    text_from(pages, 0)
}

/// Render a page list as plain text.
pub fn format_as_text(results: &Vec<DocPage>) -> (r: String)
    ensures
        r@ == text_output(results.deep_view()),
{
    let ghost dv = results.deep_view();
    let mut out = String::new();
    let n = results.len();
    let mut i: usize = 0;
    while i < n
        invariant
            n == dv.len(),
            i <= n,
            dv == results.deep_view(),
            out@ + text_from(dv, i as int) == text_output(dv),
        decreases n - i,
    {
        let ghost o0 = out@;
        out.append("标题: ");
        out.append(results[i].title.as_str());
        out.append("\n");
        out.append("URL: ");
        out.append(results[i].url.as_str());
        out.append("\n");
        out.append("内容:\n");
        out.append(results[i].content.as_str());
        out.append("\n");
        out.append("\n---\n\n");
        assert(out@ =~= o0 + text_block(dv[i as int]));
        assert(o0 + text_block(dv[i as int]) + text_from(dv, i as int + 1) =~= o0 + text_from(
            dv,
            i as int,
        ));
        i = i + 1;
    }
    out
}

/// The index of the first blank-line separator (two consecutive newlines)
/// at or after `i`; the text's length if there is none.
pub open spec fn first_break_from(s: Seq<char>, i: int) -> int
    decreases s.len() - i,
{
    if i < 0 || i + 2 > s.len() {
        s.len() as int
    } else if s[i] == '\n' && s[i + 1] == '\n' {
        i
    } else {
        first_break_from(s, i + 1)
    }
}

proof fn lemma_first_break_bounds(s: Seq<char>, i: int)
    requires
        0 <= i <= s.len(),
    ensures
        i <= first_break_from(s, i) <= s.len(),
    decreases s.len() - i,
{
    if i + 2 <= s.len() && !(s[i] == '\n' && s[i + 1] == '\n') {
        lemma_first_break_bounds(s, i + 1);
    }
}

#[via_fn]
proof fn para_blocks_dec(s: Seq<char>, start: int) {
    if 0 <= start < s.len() {
        lemma_first_break_bounds(s, start);
    }
}

/// The paragraph blocks of a content text from `start`: the text split on
/// blank-line separators, each paragraph trimmed, paragraphs that trim to
/// nothing dropped, and each survivor followed by a blank line.
pub open spec fn para_blocks(s: Seq<char>, start: int) -> Seq<char>
    decreases s.len() - start,
    via para_blocks_dec
{
    if !(0 <= start < s.len()) {
        Seq::empty()
    } else {
        let j = first_break_from(s, start);
        let t = trimmed(s.subrange(start, j));
        let blk = if t.len() > 0 {
            t + "\n\n"@
        } else {
            Seq::empty()
        };
        if j + 2 <= s.len() {
            blk + para_blocks(s, j + 2)
        } else {
            blk
        }
    }
}

/// One table-of-contents line.
pub open spec fn toc_entry(i: int, p: DocPageView) -> Seq<char> {
    dec_str(i + 1) + ". ["@ + p.title + "](#doc-"@ + dec_str(i + 1) + ")\n"@
}

/// The table-of-contents lines for `pages[i..]`, in order.
pub open spec fn toc_from(pages: Seq<DocPageView>, i: int) -> Seq<char>
    decreases pages.len() - i,
{
    if i < 0 || i >= pages.len() {
        Seq::empty()
    } else {
        toc_entry(i, pages[i]) + toc_from(pages, i + 1)
    }
}

/// The list items for `links[k..]`, in order.
pub open spec fn link_items(links: Seq<Seq<char>>, k: int) -> Seq<char>
    decreases links.len() - k,
{
    if k < 0 || k >= links.len() {
        Seq::empty()
    } else {
        "- ["@ + links[k] + "]("@ + links[k] + ")\n"@ + link_items(links, k + 1)
    }
}

/// The related-links section of one page; nothing when the page has no
/// related links.
pub open spec fn links_section(links: Seq<Seq<char>>) -> Seq<char> {
    if links.len() == 0 {
        Seq::empty()
    } else {
        "### 相关链接\n\n"@ + link_items(links, 0) + "\n"@
    }
}

/// The Markdown body block of one page.
pub open spec fn entry_block(i: int, p: DocPageView) -> Seq<char> {
    "## <a id=\"doc-"@ + dec_str(i + 1) + "\">"@ + p.title + "</a>\n\n"@ + "> 原始链接: ["@
        + p.url + "]("@ + p.url + ")\n\n"@ + "### 内容\n\n"@ + para_blocks(p.content, 0)
        + links_section(p.related_links) + "---\n\n"@
}

/// The Markdown body blocks of `pages[i..]`, in order.
pub open spec fn entries_from(pages: Seq<DocPageView>, i: int) -> Seq<char>
    decreases pages.len() - i,
{
    if i < 0 || i >= pages.len() {
        Seq::empty()
    } else {
        entry_block(i, pages[i]) + entries_from(pages, i + 1)
    }
}

/// The Markdown rendering of a page list: a header, a numbered table of
/// contents with one anchor link per page, each page's body block, and a
/// footer.
pub open spec fn markdown_output(pages: Seq<DocPageView>) -> Seq<char> {
    "# Apple 开发者文档\n\n"@ + "*由 adoc 工具爬取的文档内容*\n\n"@ + "## 目录\n\n"@ + toc_from(
        pages,
        0,
    ) + "\n---\n\n"@ + entries_from(pages, 0) + "## 关于\n\n"@
        + "本文档由 [adoc](https://github.com/king-open/adoc) 自动生成。\n"@
}

/// The position of the first blank-line separator at or after `start`.
fn find_break(content: &str, start: usize, n: usize) -> (r: usize)
    requires
        n == content@.len(),
        start <= n,
    ensures
        r as int == first_break_from(content@, start as int),
        start <= r <= n,
{
    let mut j = start;
    while j < n && j + 1 < n && !(content.get_char(j) == '\n' && content.get_char(j + 1) == '\n')
        invariant
            n == content@.len(),
            start <= j <= n,
            first_break_from(content@, start as int) == first_break_from(content@, j as int),
        decreases n - j,
    {
        j = j + 1;
    }
    proof {
        lemma_first_break_bounds(content@, start as int);
    }
    if j < n && j + 1 < n {
        j
    } else {
        n
    }
}

/// Append a content text's paragraph blocks.
fn append_paragraphs(out: &mut String, content: &str)
    ensures
        final(out)@ == old(out)@ + para_blocks(content@, 0),
{
    let n = content.unicode_len();
    let mut start: usize = 0;
    while start < n
        invariant
            n == content@.len(),
            start <= n,
            old(out)@ + para_blocks(content@, 0) == out@ + para_blocks(content@, start as int),
        decreases n - start,
    {
        let ghost o0 = out@;
        let j = find_break(content, start, n);
        let para = content.substring_char(start, j);
        let m = para.unicode_len();
        let mut a: usize = 0;
        while a < m && space_char(para.get_char(a))
            invariant
                m == para@.len(),
                a <= m,
                trim_start_idx(para@, 0) == trim_start_idx(para@, a as int),
            decreases m - a,
        {
            a = a + 1;
        }
        let mut b: usize = m;
        while b > 0 && space_char(para.get_char(b - 1))
            invariant
                m == para@.len(),
                b <= m,
                trim_end_idx(para@, m as int) == trim_end_idx(para@, b as int),
            decreases b,
        {
            b = b - 1;
        }
        assert(trim_start_idx(para@, 0) == a as int);
        assert(trim_end_idx(para@, m as int) == b as int);
        if a < b {
            out.append(para.substring_char(a, b));
            out.append("\n\n");
            assert(out@ =~= o0 + (trimmed(para@) + "\n\n"@));
        } else {
            assert(trimmed(para@) =~= Seq::<char>::empty());
        }
        if n - j >= 2 {
            start = j + 2;
        } else {
            start = n;
        }
    }
    assert(para_blocks(content@, n as int) =~= Seq::<char>::empty());
}

/// Render a page list as Markdown, with a generated table of contents.
#[verifier::rlimit(100)]
pub fn format_as_markdown(results: &Vec<DocPage>) -> (r: String)
    ensures
        r@ == markdown_output(results.deep_view()),
{
    let ghost dv = results.deep_view();
    let mut out = String::new();
    out.append("# Apple 开发者文档\n\n");
    out.append("*由 adoc 工具爬取的文档内容*\n\n");
    out.append("## 目录\n\n");
    let ghost base_toc = out@;
    let n = results.len();
    let mut i: usize = 0;
    while i < n
        invariant
            n == dv.len(),
            i <= n,
            dv == results.deep_view(),
            out@ + toc_from(dv, i as int) == base_toc + toc_from(dv, 0),
        decreases n - i,
    {
        let ghost o0 = out@;
        append_number(&mut out, (i + 1) as u64);
        out.append(". [");
        out.append(results[i].title.as_str());
        out.append("](#doc-");
        append_number(&mut out, (i + 1) as u64);
        out.append(")\n");
        assert(out@ =~= o0 + toc_entry(i as int, dv[i as int]));
        assert(o0 + toc_entry(i as int, dv[i as int]) + toc_from(dv, i as int + 1) =~= o0
            + toc_from(dv, i as int));
        i = i + 1;
    }
    out.append("\n---\n\n");
    let ghost base_entries = out@;
    let mut i: usize = 0;
    while i < n
        invariant
            n == dv.len(),
            i <= n,
            dv == results.deep_view(),
            out@ + entries_from(dv, i as int) == base_entries + entries_from(dv, 0),
        decreases n - i,
    {
        let ghost o0 = out@;
        out.append("## <a id=\"doc-");
        append_number(&mut out, (i + 1) as u64);
        out.append("\">");
        out.append(results[i].title.as_str());
        out.append("</a>\n\n");
        out.append("> 原始链接: [");
        out.append(results[i].url.as_str());
        out.append("](");
        out.append(results[i].url.as_str());
        out.append(")\n\n");
        out.append("### 内容\n\n");
        append_paragraphs(&mut out, results[i].content.as_str());
        let ghost lsdv = dv[i as int].related_links;
        if results[i].related_links.len() > 0 {
            out.append("### 相关链接\n\n");
            let ghost base_links = out@;
            let m = results[i].related_links.len();
            let mut k: usize = 0;
            while k < m
                invariant
                    0 < m == lsdv.len(),
                    k <= m,
                    i < dv.len(),
                    dv == results.deep_view(),
                    lsdv == dv[i as int].related_links,
                    out@ + link_items(lsdv, k as int) == base_links + link_items(lsdv, 0),
                decreases m - k,
            {
                let ghost l0 = out@;
                out.append("- [");
                out.append(results[i].related_links[k].as_str());
                out.append("](");
                out.append(results[i].related_links[k].as_str());
                out.append(")\n");
                assert(out@ =~= l0 + ("- ["@ + lsdv[k as int] + "]("@ + lsdv[k as int]
                    + ")\n"@));
                assert(l0 + ("- ["@ + lsdv[k as int] + "]("@ + lsdv[k as int] + ")\n"@)
                    + link_items(lsdv, k as int + 1) =~= l0 + link_items(lsdv, k as int));
                k = k + 1;
            }
            out.append("\n");
            assert(out@ =~= o0 + ("## <a id=\"doc-"@ + dec_str(i as int + 1) + "\">"@
                + dv[i as int].title + "</a>\n\n"@ + "> 原始链接: ["@ + dv[i as int].url + "]("@
                + dv[i as int].url + ")\n\n"@ + "### 内容\n\n"@ + para_blocks(
                dv[i as int].content,
                0,
            ) + links_section(lsdv)));
        } else {
            assert(links_section(lsdv) =~= Seq::<char>::empty());
        }
        out.append("---\n\n");
        assert(out@ =~= o0 + entry_block(i as int, dv[i as int]));
        assert(o0 + entry_block(i as int, dv[i as int]) + entries_from(dv, i as int + 1) =~= o0
            + entries_from(dv, i as int));
        i = i + 1;
    }
    out.append("## 关于\n\n");
    out.append("本文档由 [adoc](https://github.com/king-open/adoc) 自动生成。\n");
    assert(out@ =~= markdown_output(dv));
    out
}

} // verus!
