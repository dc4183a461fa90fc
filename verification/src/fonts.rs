use takumi::prelude::{FontResource, Fonts};
use vstd::prelude::*;

use crate::path::{extension_of, final_dot_at, is_plain_file_name, path_extension};
use crate::text::{
    char_is_alphanumeric, chars_eq, chars_of, contains_exec, contains_seq, decimal,
    index_of_char, index_of_char_exec, is_alphanumeric, is_ascii_alphanumeric, is_quote, lacks_char,
    lemma_index_of_from_contains, lemma_index_of_from_first, lemma_split_nonempty,
    lemma_trim_end_last, lemma_trim_lacks_char, occurs_at, push_char,
    push_chars, push_decimal, replace_char, replace_char_exec, slice_chars, split_exec,
    split_seq, starts_with_exec, starts_with_seq, string_of, string_views, trim_by, trim_exec,
    trim_start_by, trim_ws, views, TrimSet,
};

verus! {

// ---------------------------------------------------------------------------
// Font URLs in a Google Fonts stylesheet.
// ---------------------------------------------------------------------------

/// The URL that one piece of the stylesheet (the text after a `url(`) names:
/// the text before its first `)`, trimmed of white space and then of quotes,
/// kept only when it starts with `https://`.
pub open spec fn chunk_url(chunk: Seq<char>) -> Option<Seq<char>> {
    match index_of_char(chunk, ')') {
        Some(end) => {
            let u = trim_by(trim_ws(chunk.take(end)), TrimSet::Quotes);
            if starts_with_seq(u, "https://"@) {
                Some(u)
            } else {
                None
            }
        },
        None => None,
    }
}

/// The URLs named by a sequence of stylesheet pieces, in order.
pub open spec fn urls_of_chunks(chunks: Seq<Seq<char>>) -> Seq<Seq<char>>
    decreases chunks.len(),
{
    if chunks.len() == 0 {
        seq![]
    } else {
        let prev = urls_of_chunks(chunks.drop_last());
        match chunk_url(chunks.last()) {
            Some(u) => prev.push(u),
            None => prev,
        }
    }
}

/// The font URLs of a stylesheet: for each piece that follows a `url(` in
/// `css.split("url(")`, the URL that piece names, if any. The text before the
/// first `url(` is no `url(...)` value and names none.
pub open spec fn font_urls(css: Seq<char>) -> Seq<Seq<char>> {
    urls_of_chunks(split_seq(css, "url("@).drop_first())
}

/// The shape of every URL taken from a stylesheet: it starts with
/// `https://`, holds no `)`, and does not end with a quote.
pub open spec fn font_url_shaped(u: Seq<char>) -> bool {
    &&& starts_with_seq(u, "https://"@)
    &&& lacks_char(u, ')')
    &&& !is_quote(u.last())
}

/// The URL that one piece names has the shape of a font URL.
proof fn lemma_chunk_url_shaped(chunk: Seq<char>)
    ensures
        chunk_url(chunk) matches Some(u) ==> font_url_shaped(u),
{
    lemma_index_of_from_contains(chunk, seq![')'], 0);
    lemma_index_of_from_first(chunk, seq![')'], 0);
    if let Some(end) = index_of_char(chunk, ')') {
        let inner = chunk.take(end);
        assert(lacks_char(inner, ')')) by {
            assert forall|j: int| 0 <= j < inner.len() implies inner[j] != ')' by {
                if inner[j] == ')' {
                    assert(chunk.subrange(j, j + 1) =~= seq![')']);
                    assert(occurs_at(chunk, seq![')'], j));
                }
            }
        }
        lemma_trim_lacks_char(inner, TrimSet::WhiteSpace, ')');
        lemma_trim_lacks_char(trim_ws(inner), TrimSet::Quotes, ')');
        let u = trim_by(trim_ws(inner), TrimSet::Quotes);
        lemma_trim_end_last(trim_start_by(trim_ws(inner), TrimSet::Quotes), TrimSet::Quotes);
        if starts_with_seq(u, "https://"@) {
            reveal_strlit("https://");
            assert(u.len() > 0);
        }
    }
}

/// Every URL taken from stylesheet pieces has the shape of a font URL.
pub proof fn lemma_urls_shaped(chunks: Seq<Seq<char>>)
    ensures
        forall|i: int|
            0 <= i < urls_of_chunks(chunks).len() ==> font_url_shaped(
                #[trigger] urls_of_chunks(chunks)[i],
            ),
    decreases chunks.len(),
{
    if chunks.len() > 0 {
        let prev = urls_of_chunks(chunks.drop_last());
        lemma_urls_shaped(chunks.drop_last());
        lemma_chunk_url_shaped(chunks.last());
        match chunk_url(chunks.last()) {
            Some(u) => {
                assert forall|i: int| 0 <= i < prev.push(u).len() implies font_url_shaped(
                    #[trigger] prev.push(u)[i],
                ) by {
                    if i < prev.len() {
                        assert(prev.push(u)[i] == prev[i]);
                    }
                }
            },
            None => {},
        }
    }
}

/// `chunk_url` as a function value.
pub open spec fn chunk_url_fn() -> spec_fn(Seq<char>) -> Option<Seq<char>> {
    |p: Seq<char>| chunk_url(p)
}

proof fn lemma_urls_of_chunks_filter_map(chunks: Seq<Seq<char>>)
    ensures
        urls_of_chunks(chunks) == chunks.filter_map(chunk_url_fn()),
        forall|i: int|
            0 <= i < chunks.len() && (#[trigger] chunk_url(chunks[i])) is Some
                ==> urls_of_chunks(chunks).contains(chunk_url(chunks[i])->0),
    decreases chunks.len(),
{
    if chunks.len() > 0 {
        let rest = chunks.drop_last();
        lemma_urls_of_chunks_filter_map(rest);
        let prev = urls_of_chunks(rest);
        match chunk_url(chunks.last()) {
            Some(u) => {
                assert(prev.push(u) =~= prev + seq![u]);
                assert(prev.push(u)[prev.len() as int] == u);
            },
            None => {},
        }
        assert forall|i: int|
            0 <= i < chunks.len() && (#[trigger] chunk_url(chunks[i])) is Some
                implies urls_of_chunks(chunks).contains(chunk_url(chunks[i])->0) by {
            if i < rest.len() {
                assert(rest[i] == chunks[i]);
                let u = chunk_url(chunks[i])->0;
                let j = choose|j: int| 0 <= j < prev.len() && prev[j] == u;
                match chunk_url(chunks.last()) {
                    Some(w) => assert(prev.push(w)[j] == u),
                    None => {},
                }
            } else {
                assert(chunks[i] == chunks.last());
            }
        }
    }
}

/// Every `url(...)` value is kept: the font URLs of a stylesheet are, in
/// order, the URLs named by the pieces after each `url(`, one for each piece
/// that names one, however many there are; so the URL of every such piece is
/// among them.
pub proof fn lemma_font_urls_complete(css: Seq<char>)
    ensures
        font_urls(css) == split_seq(css, "url("@).drop_first().filter_map(chunk_url_fn()),
        forall|i: int|
            1 <= i < split_seq(css, "url("@).len() && (#[trigger] chunk_url(
                split_seq(css, "url("@)[i],
            )) is Some ==> font_urls(css).contains(chunk_url(split_seq(css, "url("@)[i])->0),
{
    reveal_strlit("url(");
    lemma_split_nonempty(css, "url("@);
    let pieces = split_seq(css, "url("@);
    let tail = pieces.drop_first();
    lemma_urls_of_chunks_filter_map(tail);
    assert forall|i: int|
        1 <= i < pieces.len() && (#[trigger] chunk_url(pieces[i])) is Some implies font_urls(
        css,
    ).contains(chunk_url(pieces[i])->0) by {
        assert(tail[i - 1] == pieces[i]);
        assert(chunk_url(tail[i - 1]) is Some);
    }
}

/// The stylesheet URL of a family is the fixed prefix, then the family name
/// with each space turned into `+` and every other character kept (so the
/// same length and no space), then the fixed suffix.
pub proof fn lemma_css_url_shape(family: Seq<char>)
    ensures
        ({
            let u = google_css_url(family);
            let pre = "https://fonts.googleapis.com/css2?family="@;
            let suf = "&display=swap"@;
            &&& u.len() == pre.len() + family.len() + suf.len()
            &&& u.subrange(0, pre.len() as int) == pre
            &&& u.subrange((pre.len() + family.len()) as int, u.len() as int) == suf
            &&& forall|i: int|
                0 <= i < family.len() ==> #[trigger] u.subrange(
                    pre.len() as int,
                    (pre.len() + family.len()) as int,
                )[i] == if family[i] == ' ' {
                    '+'
                } else {
                    family[i]
                }
            &&& forall|i: int|
                0 <= i < family.len() ==> #[trigger] u.subrange(
                    pre.len() as int,
                    (pre.len() + family.len()) as int,
                )[i] != ' '
        }),
{
    let u = google_css_url(family);
    let pre = "https://fonts.googleapis.com/css2?family="@;
    let suf = "&display=swap"@;
    let mid = replace_char(family, ' ', '+');
    assert(u == pre + mid + suf);
    assert(u.subrange(0, pre.len() as int) =~= pre);
    assert(u.subrange((pre.len() + family.len()) as int, u.len() as int) =~= suf);
    assert(u.subrange(pre.len() as int, (pre.len() + family.len()) as int) =~= mid);
}

/// The URL named by one stylesheet piece.
fn chunk_url_exec(chunk: &[char], https: &[char]) -> (r: Option<Vec<char>>)
    requires
        https@ == "https://"@,
    ensures
        r matches Some(u) ==> chunk_url(chunk@) == Some(u@),
        r is None ==> chunk_url(chunk@) is None,
{
    match index_of_char_exec(chunk, ')') {
        Some(end) => {
            proof {
                lemma_index_of_from_contains(chunk@, seq![')'], 0);
            }
            let inner = slice_chars(chunk, 0, end);
            assert(inner@ == chunk@.take(end as int));
            let trimmed = trim_exec(inner.as_slice(), TrimSet::WhiteSpace);
            let u = trim_exec(trimmed.as_slice(), TrimSet::Quotes);
            if starts_with_exec(u.as_slice(), https) {
                Some(u)
            } else {
                None
            }
        },
        None => None,
    }
}

/// Extract `url(...)` values from Google Fonts CSS.
///
/// The result holds, in order, the URL of each piece that follows a `url(`
/// (see `chunk_url`); each starts with `https://`, holds no `)` and does not
/// end with a quote.
pub fn extract_font_urls(css: &str) -> (r: Vec<String>)
    ensures
        string_views(r@) == font_urls(css@),
        forall|i: int| 0 <= i < r@.len() ==> font_url_shaped(#[trigger] r@[i]@),
{
    let text = chars_of(css);
    let sep = chars_of("url(");
    proof {
        reveal_strlit("url(");
    }
    let https = chars_of("https://");
    let chunks = split_exec(text.as_slice(), sep.as_slice());
    proof {
        lemma_split_nonempty(css@, "url("@);
    }
    let ghost tail = views(chunks@).drop_first();
    let mut urls: Vec<String> = Vec::new();
    let mut k: usize = 1;
    while k < chunks.len()
        invariant
            1 <= k <= chunks@.len(),
            https@ == "https://"@,
            views(chunks@) == split_seq(css@, "url("@),
            tail == views(chunks@).drop_first(),
            string_views(urls@) == urls_of_chunks(tail.take(k - 1)),
        decreases chunks@.len() - k,
    {
        let ghost before = urls@;
        assert(tail.take(k as int).drop_last() =~= tail.take(k - 1));
        assert(tail.take(k as int).last() == chunks@[k as int]@);
        match chunk_url_exec(chunks[k].as_slice(), https.as_slice()) {
            Some(u) => {
                let s = string_of(u.as_slice());
                urls.push(s);
                assert(string_views(urls@) =~= string_views(before).push(s@));
            },
            None => {},
        }
        k += 1;
    }
    assert(tail.take(chunks@.len() - 1) =~= tail);
    proof {
        lemma_urls_shaped(tail);
        assert forall|i: int| 0 <= i < urls@.len() implies font_url_shaped(
            #[trigger] urls@[i]@,
        ) by {
            assert(string_views(urls@)[i] == urls@[i]@);
        }
    }
    urls
}

// ---------------------------------------------------------------------------
// Names and files of the font cache.
// ---------------------------------------------------------------------------

/// A font family name made fit for a directory name: each character that is
/// neither alphanumeric nor `-` becomes `_`.
pub open spec fn sanitized(name: Seq<char>) -> Seq<char> {
    name.map_values(|c: char| if is_alphanumeric(c) || c == '-' { c } else { '_' })
}

/// A character that a sanitized name may hold: `-`, `_`, or an alphanumeric,
/// which among ASCII characters is a letter or a digit. So no path separator
/// (`/`, `\`), no `.` and no `:`.
pub open spec fn name_safe_char(c: char) -> bool {
    c == '-' || c == '_' || (is_alphanumeric(c) && ((c as u32) < 128 ==> is_ascii_alphanumeric(c)))
}

/// What sanitizing makes of an ASCII character: letters, digits and `-` stay,
/// anything else becomes `_`.
pub open spec fn ascii_sanitized(c: char) -> char {
    if is_ascii_alphanumeric(c) || c == '-' {
        c
    } else {
        '_'
    }
}

/// Sanitize a font family name for use as a directory name.
///
/// The result has the length of `name` and only characters that
/// `name_safe_char` allows, so a non-empty name becomes a plain file name:
/// it holds no separator, and is neither `.` nor `..`.
pub fn sanitize_name(name: &str) -> (r: String)
    ensures
        r@ == sanitized(name@),
        r@.len() == name@.len(),
        forall|i: int| 0 <= i < r@.len() ==> name_safe_char(#[trigger] r@[i]),
        name@.len() > 0 ==> is_plain_file_name(r@),
        forall|i: int|
            0 <= i < name@.len() && (name@[i] as u32) < 128 ==> #[trigger] r@[i] == ascii_sanitized(
                name@[i],
            ),
{
    let cs = chars_of(name);
    let mut r = String::new();
    let mut i: usize = 0;
    while i < cs.len()
        invariant
            0 <= i <= cs@.len(),
            cs@ == name@,
            r@ == sanitized(cs@.take(i as int)),
            forall|j: int| 0 <= j < r@.len() ==> name_safe_char(#[trigger] r@[j]),
            forall|j: int|
                0 <= j < i && (cs@[j] as u32) < 128 ==> #[trigger] r@[j] == ascii_sanitized(cs@[j]),
        decreases cs@.len() - i,
    {
        let c = cs[i];
        let keep = char_is_alphanumeric(c) || c == '-';
        let ghost before = r@;
        push_char(&mut r, if keep { c } else { '_' });
        assert(forall|j: int| 0 <= j < before.len() ==> r@[j] == before[j]);
        assert(cs@.take(i + 1) == cs@.take(i as int).push(c));
        assert(sanitized(cs@.take(i + 1)) =~= sanitized(cs@.take(i as int)).push(
            if keep { c } else { '_' },
        ));
        i += 1;
    }
    assert(cs@.take(cs@.len() as int) == cs@);
    proof {
        reveal_strlit(".");
        reveal_strlit("..");
        if r@.len() > 0 {
            assert(name_safe_char(r@[0]));
            assert(r@ != "."@) by {
                if r@ == "."@ {
                    assert(r@[0] == '.');
                }
            }
            assert(r@ != ".."@) by {
                if r@ == ".."@ {
                    assert(r@[0] == '.');
                }
            }
            assert(lacks_char(r@, '/') && lacks_char(r@, '\\') && lacks_char(r@, ':')) by {
                assert forall|i: int| 0 <= i < r@.len() implies r@[i] != '/' && r@[i] != '\\'
                    && r@[i] != ':' by {
                    assert(name_safe_char(r@[i]));
                }
            }
        }
    }
    r
}

/// Sanitizing keeps the length of a name, leaves only alphanumerics, `-` and
/// `_`, and keeps a name made only of alphanumerics and `-` unchanged.
pub proof fn lemma_sanitized_shape(name: Seq<char>)
    ensures
        sanitized(name).len() == name.len(),
        forall|i: int|
            0 <= i < name.len() ==> {
                let c = #[trigger] sanitized(name)[i];
                is_alphanumeric(c) || c == '-' || c == '_'
            },
        (forall|i: int| 0 <= i < name.len() ==> is_alphanumeric(#[trigger] name[i]) || name[i]
            == '-') ==> sanitized(name) == name,
{
    if forall|i: int| 0 <= i < name.len() ==> is_alphanumeric(#[trigger] name[i]) || name[i]
        == '-' {
        assert(sanitized(name) =~= name);
    }
}

/// The font file extensions that the cache keeps.
pub open spec fn is_font_extension_spec(ext: Option<Seq<char>>) -> bool {
    match ext {
        Some(e) => e == "ttf"@ || e == "otf"@ || e == "woff"@ || e == "woff2"@,
        None => false,
    }
}

/// Whether the extension (as `Path::extension` gives it) is one of `ttf`,
/// `otf`, `woff` or `woff2`.
pub fn is_font_extension(ext: Option<&str>) -> (r: bool)
    ensures
        r == is_font_extension_spec(
            match ext {
                Some(e) => Some(e@),
                None => None,
            },
        ),
{
    match ext {
        Some(e) => {
            let e = chars_of(e);
            let ttf = chars_of("ttf");
            let otf = chars_of("otf");
            let woff = chars_of("woff");
            let woff2 = chars_of("woff2");
            chars_eq(e.as_slice(), ttf.as_slice()) || chars_eq(e.as_slice(), otf.as_slice())
                || chars_eq(e.as_slice(), woff.as_slice()) || chars_eq(
                e.as_slice(),
                woff2.as_slice(),
            )
        },
        None => false,
    }
}

/// Whether the file at `path` is a font file, judged by its extension.
pub fn is_font_file(path: &str) -> (r: bool)
    ensures
        r == is_font_extension_spec(path_extension(path@)),
        forall|k: int| #[trigger] final_dot_at(path@, k) ==> r == is_font_extension_spec(Some(path@.skip(k + 1))),
{
    let ext = extension_of(path);
    match ext {
        Some(e) => is_font_extension(Some(e.as_str())),
        None => is_font_extension(None),
    }
}

/// The Google Fonts stylesheet URL for a family: spaces in the family name
/// become `+`.
pub open spec fn google_css_url(family: Seq<char>) -> Seq<char> {
    "https://fonts.googleapis.com/css2?family="@ + replace_char(family, ' ', '+')
        + "&display=swap"@
}

/// The Google Fonts stylesheet URL for a family.
pub fn google_fonts_css_url(family: &str) -> (r: String)
    ensures
        r@ == google_css_url(family@),
{
    let mut r = String::from_str("https://fonts.googleapis.com/css2?family=");
    let f = chars_of(family);
    let plus = replace_char_exec(f.as_slice(), ' ', '+');
    push_chars(&mut r, plus.as_slice());
    r.append("&display=swap");
    r
}

/// The extension under which a downloaded font is cached: `woff2` when the
/// URL contains `.woff2`, else `woff` when it contains `.woff`, else `ttf`.
pub open spec fn font_ext_for_url(url: Seq<char>) -> Seq<char> {
    if contains_seq(url, ".woff2"@) {
        "woff2"@
    } else if contains_seq(url, ".woff"@) {
        "woff"@
    } else {
        "ttf"@
    }
}

/// The extension under which the font at `url` is cached.
pub fn font_file_extension(url: &str) -> (r: &'static str)
    ensures
        r@ == font_ext_for_url(url@),
{
    let u = chars_of(url);
    let woff2 = chars_of(".woff2");
    let woff = chars_of(".woff");
    if contains_exec(u.as_slice(), woff2.as_slice()) {
        "woff2"
    } else if contains_exec(u.as_slice(), woff.as_slice()) {
        "woff"
    } else {
        "ttf"
    }
}

/// The file name of the `index`-th downloaded font: `{index}.{ext}`.
pub open spec fn cached_font_name(index: nat, url: Seq<char>) -> Seq<char> {
    decimal(index) + "."@ + font_ext_for_url(url)
}

/// The digits of a number in decimal: at least one, each `0` to `9`.
proof fn lemma_decimal_digits(n: nat)
    ensures
        decimal(n).len() >= 1,
        forall|i: int| 0 <= i < decimal(n).len() ==> '0' <= #[trigger] decimal(n)[i] <= '9',
    decreases n,
{
    if n >= 10 {
        lemma_decimal_digits(n / 10);
        let d = decimal(n / 10);
        assert forall|i: int| 0 <= i < decimal(n).len() implies '0' <= #[trigger] decimal(n)[i]
            <= '9' by {
            if i < d.len() {
                assert(decimal(n)[i] == d[i]);
            }
        }
    }
}

/// A cached font's file name `{index}.{ext}` is a plain file name whose only
/// dot follows the digits, and the text after it is a font extension; so
/// `is_font_file` holds of it (see that function's contract).
pub proof fn lemma_cached_name_is_font_file(index: nat, url: Seq<char>)
    ensures
        ({
            let name = cached_font_name(index, url);
            let k = decimal(index).len() as int;
            &&& final_dot_at(name, k)
            &&& name.skip(k + 1) == font_ext_for_url(url)
            &&& is_font_extension_spec(Some(name.skip(k + 1)))
        }),
{
    reveal_strlit(".");
    reveal_strlit("woff2");
    reveal_strlit("woff");
    reveal_strlit("ttf");
    reveal_strlit("..");
    lemma_decimal_digits(index);
    let d = decimal(index);
    let ext = font_ext_for_url(url);
    let name = cached_font_name(index, url);
    let k = d.len() as int;
    assert(name =~= d + "."@ + ext);
    assert(name.skip(k + 1) =~= ext);
    assert(name[k] == '.');
    assert(forall|i: int| 0 <= i < k ==> name[i] == d[i]);
    assert(forall|i: int| 0 <= i < ext.len() ==> name[k + 1 + i] == ext[i]);
    assert(name[0] != '.');
    assert(name != "."@);
    assert(name != ".."@);
}

/// The file name under which the `index`-th font URL is cached.
pub fn cached_font_file_name(index: usize, url: &str) -> (r: String)
    ensures
        r@ == cached_font_name(index as nat, url@),
{
    let mut r = String::new();
    push_decimal(&mut r, index);
    r.append(".");
    r.append(font_file_extension(url));
    r
}

// ---------------------------------------------------------------------------
// Registering fonts with the renderer.
// ---------------------------------------------------------------------------

#[verifier::external_type_specification]
#[verifier::external_body]
pub struct ExFonts(Fonts);

/// Whether takumi reads these bytes as a font (TrueType, OpenType, WOFF or
/// WOFF2). A function of the bytes alone.
pub uninterp spec fn font_readable(bytes: Seq<u8>) -> bool;

/// Registers the font in `bytes` with the renderer's font set.
///
/// Calls takumi's `Fonts::register` on `FontResource::new(bytes)`, which fails
/// only where the bytes cannot be turned into a font face, so the outcome
/// depends on the bytes alone. What the font set holds afterwards is opaque
/// here and left unsaid.
#[verifier::external_body]
fn register_font(fonts: &mut Fonts, bytes: Vec<u8>) -> (r: bool)
    ensures
        r == font_readable(bytes@),
{
    fonts.register(FontResource::new(bytes)).is_ok()
}

/// Loads a font file's contents (`None` where it could not be read) into
/// `fonts`, and says whether a font was loaded.
pub fn load_font(fonts: &mut Fonts, bytes: Option<Vec<u8>>) -> (r: bool)
    ensures
        r <==> (bytes matches Some(b) && font_readable(b@)),
{
    match bytes {
        Some(b) => register_font(fonts, b),
        None => false,
    }
}

} // verus!
