//! The HTML page that shows the most recent history entries.
use crate::database::History;
use crate::text::{chars_of, joined};
use vstd::prelude::*;

verus! {

/// The image shown for a link that is not a picture.
pub const IMG_NO_MEDIA: &'static str = "data:image/svg+xml,%3Csvg xmlns='http://www.w3.org/2000/svg' width='64' height='64'/%3E";

/// The page's `<head>` element.
pub const DASHBOARD_HEAD: &'static str = "<head>\n  <title>Small dashboard</title>\n  <meta name=\"viewport\" content=\"width=device-width, initial-scale=1\">\n  <link rel=\"stylesheet\" href=\"https://maxcdn.bootstrapcdn.com/bootstrap/3.3.5/css/bootstrap.min.css\">\n  <style>\n    article.item { vertical-align: top; display: block; text-align: center; }\n    img { background-color: grey; padding: 0.5em; margin-top: 3em; margin-left: 2em; margin-right: 2em; }\n    .caption { display: block; }\n    .count { display: block; margin: 0.5em; font-weight: bold; text-align: center; background: #CFCFCF }\n    pre.count { margin: 2em; }\n    pre.count span { font-size: 1.6em; }\n    body { background-color: #e1e1e1; }\n    footer { display: block; margin: 1.6em; margin-top: 3.2em; text-align: center; }\n  </style>\n</head>";

/// The decimal digit `d`.
pub open spec fn digit_char(d: nat) -> char {
    if d == 0 {
        '0'
    } else if d == 1 {
        '1'
    } else if d == 2 {
        '2'
    } else if d == 3 {
        '3'
    } else if d == 4 {
        '4'
    } else if d == 5 {
        '5'
    } else if d == 6 {
        '6'
    } else if d == 7 {
        '7'
    } else if d == 8 {
        '8'
    } else {
        '9'
    }
}

/// `n` written in decimal.
pub open spec fn decimal(n: nat) -> Seq<char>
    decreases n,
{
    if n < 10 {
        seq![digit_char(n)]
    } else {
        decimal(n / 10).push(digit_char(n % 10))
    }
}

/// `n` written in decimal, with a leading `-` when negative.
pub open spec fn signed_decimal(n: int) -> Seq<char> {
    if n < 0 {
        seq!['-'] + decimal((-n) as nat)
    } else {
        decimal(n as nat)
    }
}

fn digit_text(d: u64) -> (r: &'static str)
    requires
        d < 10,
    ensures
        r@ == seq![digit_char(d as nat)],
{
    proof {
        reveal_strlit("0");
        reveal_strlit("1");
        reveal_strlit("2");
        reveal_strlit("3");
        reveal_strlit("4");
        reveal_strlit("5");
        reveal_strlit("6");
        reveal_strlit("7");
        reveal_strlit("8");
        reveal_strlit("9");
    }
    let r = if d == 0 {
        "0"
    } else if d == 1 {
        "1"
    } else if d == 2 {
        "2"
    } else if d == 3 {
        "3"
    } else if d == 4 {
        "4"
    } else if d == 5 {
        "5"
    } else if d == 6 {
        "6"
    } else if d == 7 {
        "7"
    } else if d == 8 {
        "8"
    } else {
        "9"
    };
    assert(r@ =~= seq![digit_char(d as nat)]);
    r
}

/// `n` written in decimal.
pub fn decimal_text(n: u64) -> (r: String)
    ensures
        r@ == decimal(n as nat),
    decreases n,
{
    if n < 10 {
        let r = joined("", digit_text(n));
        proof {
            reveal_strlit("");
        }
        assert(r@ =~= decimal(n as nat));
        r
    } else {
        let head = decimal_text(n / 10);
        let r = joined(head.as_str(), digit_text(n % 10));
        assert(r@ =~= decimal(n as nat));
        r
    }
}

/// `n` written in decimal, with a leading `-` when negative.
pub fn signed_decimal_text(n: i64) -> (r: String)
    ensures
        r@ == signed_decimal(n as int),
{
    if n < 0 {
        let magnitude: u64 = ((-(n + 1)) as u64) + 1;
        let digits = decimal_text(magnitude);
        proof {
            reveal_strlit("-");
        }
        let r = joined("-", digits.as_str());
        assert(r@ =~= signed_decimal(n as int));
        r
    } else {
        decimal_text(n as u64)
    }
}

/// `s` cut at every space, empty pieces included.
pub open spec fn space_pieces(s: Seq<char>) -> Seq<Seq<char>>
    decreases s.len(),
{
    if s.len() == 0 {
        seq![Seq::empty()]
    } else {
        let p = space_pieces(s.drop_last());
        if s.last() == ' ' {
            p.push(Seq::empty())
        } else {
            p.update(p.len() - 1, p.last().push(s.last()))
        }
    }
}

/// The pieces of `ps` that are not empty, in order.
pub open spec fn nonempty_pieces(ps: Seq<Seq<char>>) -> Seq<Seq<char>>
    decreases ps.len(),
{
    if ps.len() == 0 {
        ps
    } else {
        let r = nonempty_pieces(ps.drop_last());
        if ps.last().len() == 0 {
            r
        } else {
            r.push(ps.last())
        }
    }
}

/// `parts` joined, with `sep` between each two.
pub open spec fn join_texts(parts: Seq<Seq<char>>, sep: Seq<char>) -> Seq<char>
    decreases parts.len(),
{
    if parts.len() == 0 {
        Seq::empty()
    } else if parts.len() == 1 {
        parts[0]
    } else {
        join_texts(parts.drop_last(), sep) + sep + parts.last()
    }
}

/// The views of `v`'s strings.
pub open spec fn texts(v: Seq<String>) -> Seq<Seq<char>> {
    v.map_values(|x: String| x@)
}

fn copy_str(s: &str) -> (r: String)
    ensures
        r@ == s@,
{
    let mut r = String::new();
    r.append(s);
    assert(r@ =~= s@);
    r
}

/// The links of a history entry's content: its space-separated words.
pub fn split_links(content: &str) -> (r: Vec<String>)
    ensures
        texts(r@) == nonempty_pieces(space_pieces(content@)),
{
    let cs = chars_of(content);
    let n = cs.len();
    let mut links: Vec<String> = Vec::new();
    let ghost mut done: Seq<Seq<char>> = Seq::empty();
    let mut start: usize = 0;
    let mut i: usize = 0;
    assert(content@.take(0) =~= Seq::<char>::empty());
    assert(content@.subrange(0, 0) =~= Seq::<char>::empty());
    while i < n
        invariant
            cs@ == content@,
            n == cs.len(),
            start <= i <= n,
            space_pieces(content@.take(i as int)) == done.push(content@.subrange(
                start as int,
                i as int,
            )),
            texts(links@) == nonempty_pieces(done),
        decreases n - i,
    {
        let ghost before = content@.take(i as int);
        assert(content@.take(i + 1).drop_last() =~= before);
        assert(content@.take(i + 1).last() == cs@[i as int]);
        if cs[i] == ' ' {
            let piece = content.substring_char(start, i);
            let ghost old_done = done;
            proof {
                done = done.push(content@.subrange(start as int, i as int));
                assert(done.drop_last() =~= old_done);
            }
            if start < i {
                let ghost old_links = links@;
                links.push(copy_str(piece));
                assert(texts(links@) =~= texts(old_links).push(piece@));
            }
            start = i + 1;
            assert(content@.subrange(start as int, start as int) =~= Seq::<char>::empty());
        } else {
            assert(content@.subrange(start as int, i + 1) =~= content@.subrange(
                start as int,
                i as int,
            ).push(cs@[i as int]));
            assert(done.push(content@.subrange(start as int, i as int)).update(
                done.len() as int,
                content@.subrange(start as int, i + 1),
            ) =~= done.push(content@.subrange(start as int, i + 1)));
        }
        i = i + 1;
    }
    assert(content@.take(n as int) =~= content@);
    let last = content.substring_char(start, n);
    let ghost all = done.push(content@.subrange(start as int, n as int));
    assert(all.drop_last() =~= done);
    if start < n {
        let ghost old_links = links@;
        links.push(copy_str(last));
        assert(texts(links@) =~= texts(old_links).push(last@));
    }
    links
}

/// `s` ends with `suffix`.
pub open spec fn ends_with(s: Seq<char>, suffix: Seq<char>) -> bool {
    s.len() >= suffix.len() && s.subrange(s.len() - suffix.len(), s.len() as int) == suffix
}

fn ends_with_text(s: &Vec<char>, suffix: &str) -> (r: bool)
    ensures
        r == ends_with(s@, suffix@),
{
    let t = chars_of(suffix);
    if t.len() > s.len() {
        return false;
    }
    let off = s.len() - t.len();
    let mut i: usize = 0;
    while i < t.len()
        invariant
            t@ == suffix@,
            off == s.len() - t.len(),
            i <= t.len(),
            forall|k: int| 0 <= k < i ==> s@[off + k] == t@[k],
        decreases t.len() - i,
    {
        if s[off + i] != t[i] {
            assert(s@.subrange(off as int, s.len() as int)[i as int] != t@[i as int]);
            return false;
        }
        i = i + 1;
    }
    assert(s@.subrange(off as int, s.len() as int) =~= t@);
    true
}

/// The link points at a picture, by its ending.
pub open spec fn is_media_link(link: Seq<char>) -> bool {
    ends_with(link, "png"@) || ends_with(link, "jpg"@) || ends_with(link, "jpeg"@) || ends_with(
        link,
        "gif"@,
    )
}

/// Whether `link` points at a picture.
pub fn media_link(link: &str) -> (r: bool)
    ensures
        r == is_media_link(link@),
{
    let cs = chars_of(link);
    ends_with_text(&cs, "png") || ends_with_text(&cs, "jpg") || ends_with_text(&cs, "jpeg")
        || ends_with_text(&cs, "gif")
}

/// The HTML of one link, with its caption.
pub open spec fn link_html(link: Seq<char>, timestamp: Seq<char>, file: Seq<char>) -> Seq<char> {
    let caption = "<span class=\"caption\">"@ + timestamp + " - "@ + file;
    if is_media_link(link) {
        "<a href=\""@ + link + "\"><img src=\""@ + link + "\"></img>"@ + caption + "</span></a>"@
    } else {
        "<a href=\""@ + link + "\"><img src=\""@ + IMG_NO_MEDIA@ + "\">"@ + caption
            + "</span></div></a>"@
    }
}

fn render_link_html(link: &str, timestamp: &str, file: &str) -> (r: String)
    ensures
        r@ == link_html(link@, timestamp@, file@),
{
    let a = joined("<span class=\"caption\">", timestamp);
    let b = joined(a.as_str(), " - ");
    let caption = joined(b.as_str(), file);
    let c = joined("<a href=\"", link);
    if media_link(link) {
        let d = joined(c.as_str(), "\"><img src=\"");
        let e = joined(d.as_str(), link);
        let f = joined(e.as_str(), "\"></img>");
        let g = joined(f.as_str(), caption.as_str());
        let r = joined(g.as_str(), "</span></a>");
        assert(r@ =~= link_html(link@, timestamp@, file@));
        r
    } else {
        let d = joined(c.as_str(), "\"><img src=\"");
        let e = joined(d.as_str(), IMG_NO_MEDIA);
        let f = joined(e.as_str(), "\">");
        let g = joined(f.as_str(), caption.as_str());
        let r = joined(g.as_str(), "</span></div></a>");
        assert(r@ =~= link_html(link@, timestamp@, file@));
        r
    }
}

/// The HTML of the links of one entry, the empty ones left out.
pub open spec fn links_html(timestamp: Seq<char>, links: Seq<Seq<char>>, file: Seq<char>) -> Seq<
    char,
> {
    join_texts(nonempty_pieces(links).map_values(|l: Seq<char>| link_html(l, timestamp, file)), " "@)
}

/// Renders the links of one entry, each with the caption `timestamp - file`.
pub fn extract_links(timestamp: &str, links: &Vec<String>, file: &str) -> (r: String)
    ensures
        r@ == links_html(timestamp@, texts(links@), file@),
{
    let ghost ls = texts(links@);
    let ghost f = |l: Seq<char>| link_html(l, timestamp@, file@);
    let mut r = String::new();
    let mut count: usize = 0;
    let mut i: usize = 0;
    while i < links.len()
        invariant
            ls == texts(links@),
            f == (|l: Seq<char>| link_html(l, timestamp@, file@)),
            i <= links.len(),
            count == nonempty_pieces(ls.take(i as int)).len(),
            count <= i,
            r@ == join_texts(nonempty_pieces(ls.take(i as int)).map_values(f), " "@),
        decreases links.len() - i,
    {
        let ghost prev = nonempty_pieces(ls.take(i as int));
        assert(ls.take(i + 1).drop_last() =~= ls.take(i as int));
        assert(ls.take(i + 1).last() == links@[i as int]@);
        if !links[i].as_str().is_empty() {
            let html = render_link_html(links[i].as_str(), timestamp, file);
            let ghost next = prev.push(links@[i as int]@);
            assert(next.map_values(f) =~= prev.map_values(f).push(html@));
            assert(next.map_values(f).drop_last() =~= prev.map_values(f));
            if count == 0 {
                r = html;
            } else {
                let spaced = joined(r.as_str(), " ");
                r = joined(spaced.as_str(), html.as_str());
            }
            count = count + 1;
        }
        i = i + 1;
    }
    assert(ls.take(links.len() as int) =~= ls);
    r
}

/// The `<article>` of one entry, whose time reads `timestamp`.
pub open spec fn article_html(e: History, timestamp: Seq<char>) -> Seq<char> {
    "<article id=\""@ + e.uuid@ + "\" class=\"text-center\">"@ + links_html(
        timestamp,
        nonempty_pieces(space_pieces(e.content@)),
        e.file@,
    ) + "</article>"@
}

/// The articles of `history`, entry `i` with the time text `stamps[i]`.
pub open spec fn articles(history: Seq<History>, stamps: Seq<Seq<char>>) -> Seq<Seq<char>> {
    Seq::new(history.len(), |i: int| article_html(history[i], stamps[i]))
}

/// The whole page for `history`, entry `i` with the time text `stamps[i]`.
pub open spec fn page_html(history: Seq<History>, stamps: Seq<Seq<char>>, version: Seq<char>) -> Seq<
    char,
> {
    "<html>\n"@ + DASHBOARD_HEAD@ + "\n<body>\n<pre class=\"count\"><span>small</span> history of: "@
        + decimal(history.len()) + "</pre>\n<div>\n"@ + join_texts(articles(history, stamps), " "@)
        + "\n</div>\n<footer>\n<pre class=\"count\">Sync eM ALL - version: "@ + version
        + " - © 2015-2025 - Daniel (<a href=\"https://x.com/dmilith/\" target=\"_blank\">@dmilith</a>) Dettlaff</pre>\n</footer>\n</body>\n</html>"@
}

/// Renders the page for `history`, entry `i` with the time text `stamps[i]`.
pub fn render_history_with(history: &Vec<History>, stamps: &Vec<String>, version: &str) -> (r:
    String)
    requires
        stamps.len() == history.len(),
    ensures
        r@ == page_html(history@, texts(stamps@), version@),
{
    let ghost all = articles(history@, texts(stamps@));
    let mut items = String::new();
    let mut i: usize = 0;
    while i < history.len()
        invariant
            stamps.len() == history.len(),
            all == articles(history@, texts(stamps@)),
            i <= history.len(),
            items@ == join_texts(all.take(i as int), " "@),
        decreases history.len() - i,
    {
        let links = split_links(history[i].content.as_str());
        let inner = extract_links(stamps[i].as_str(), &links, history[i].file.as_str());
        let a = joined("<article id=\"", history[i].uuid.as_str());
        let b = joined(a.as_str(), "\" class=\"text-center\">");
        let c = joined(b.as_str(), inner.as_str());
        let article = joined(c.as_str(), "</article>");
        assert(article@ =~= all[i as int]);
        assert(all.take(i + 1).drop_last() =~= all.take(i as int));
        if i == 0 {
            items = article;
        } else {
            let spaced = joined(items.as_str(), " ");
            items = joined(spaced.as_str(), article.as_str());
        }
        i = i + 1;
    }
    assert(all.take(history.len() as int) =~= all);
    let count = decimal_text(history.len() as u64);
    let mut page = joined("<html>\n", DASHBOARD_HEAD);
    page = joined(page.as_str(), "\n<body>\n<pre class=\"count\"><span>small</span> history of: ");
    page = joined(page.as_str(), count.as_str());
    page = joined(page.as_str(), "</pre>\n<div>\n");
    page = joined(page.as_str(), items.as_str());
    page = joined(page.as_str(), "\n</div>\n<footer>\n<pre class=\"count\">Sync eM ALL - version: ");
    page = joined(page.as_str(), version);
    let r = joined(
        page.as_str(),
        " - © 2015-2025 - Daniel (<a href=\"https://x.com/dmilith/\" target=\"_blank\">@dmilith</a>) Dettlaff</pre>\n</footer>\n</body>\n</html>",
    );
    assert(r@ =~= page_html(history@, texts(stamps@), version@));
    r
}

/// Relies on chrono's DateTime::<Utc>::from_timestamp, its conversion to
/// Local, and `format` with `fmt`: the time in the machine's time zone, so
/// any text may come back; none when the timestamp is out of range. Only a
/// well-formed format is admitted, as chrono's `Display` fails on a bad one.
#[verifier::external_body]
fn local_time_text(timestamp: i64, fmt: &str) -> (r: Option<String>)
    requires
        fmt@ == "%Y-%m-%d %H:%M:%S"@,
{
    match chrono::DateTime::<chrono::Utc>::from_timestamp(timestamp, 0) {
        Some(t) => Some(chrono::DateTime::<chrono::Local>::from(t).format(fmt).to_string()),
        None => None,
    }
}

/// Renders the page for `history`, each entry's time in local time or, when
/// out of range, as its number of seconds.
pub fn render_history(history: &Vec<History>, version: &str) -> (r: String)
    ensures
        exists|stamps: Seq<Seq<char>>|
            stamps.len() == history.len() && r@ == page_html(history@, stamps, version@),
{
    let mut stamps: Vec<String> = Vec::new();
    let mut i: usize = 0;
    while i < history.len()
        invariant
            i <= history.len(),
            stamps.len() == i,
        decreases history.len() - i,
    {
        let text = match local_time_text(history[i].timestamp, "%Y-%m-%d %H:%M:%S") {
            Some(t) => t,
            None => signed_decimal_text(history[i].timestamp),
        };
        stamps.push(text);
        i = i + 1;
    }
    let r = render_history_with(history, &stamps, version);
    assert(texts(stamps@).len() == history.len());
    r
}

} // verus!
