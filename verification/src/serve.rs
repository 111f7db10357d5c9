//! The live-reload development server: what it answers to a request.

use crate::find::{find_last_occurrence, last_occurrence, lemma_last_occurrence_in_range};
use crate::path::{
    append, bytes_eq, bytes_of, copy_range, ends_with, extension, get_extension, has_prefix,
    has_suffix, join, join_paths, replace_extension, starts_with, trim_leading,
    trim_leading_bytes, trim_trailing, trim_trailing_bytes, with_extension, SEPARATOR,
};
use vstd::prelude::*;
use vstd::slice::slice_to_vec;

verus! {

/// The script that makes a page reload itself when the server says so.
pub const LIVE_RELOAD_SCRIPT: &'static str =
    "<script>\n    const source = new EventSource('/livereload');\n    source.onmessage = () => {\n        source.close(); \n        location.reload();\n    }\n    source.onerror = () => {\n        source.close();\n    };\n    window.onbeforeunload = () => {\n        source.close();\n    };\n</script>";

/// The bytes of the live-reload script.
pub open spec fn script_bytes() -> Seq<u8> {
    bytes_of(LIVE_RELOAD_SCRIPT)
}

/// The closing tag of a page's body.
pub open spec fn body_end() -> Seq<u8> {
    bytes_of("</body>")
}

/// The closing tag of a page.
pub open spec fn html_end() -> Seq<u8> {
    bytes_of("</html>")
}

/// Where the script goes: before the last `</body>`, else before the last
/// `</html>`, else at the end.
pub open spec fn injection_point(html: Seq<u8>) -> int {
    match last_occurrence(html, body_end()) {
        Some(i) => i,
        None => match last_occurrence(html, html_end()) {
            Some(i) => i,
            None => html.len() as int,
        },
    }
}

/// The page with the live-reload script put in.
pub open spec fn with_script(html: Seq<u8>) -> Seq<u8> {
    let at = injection_point(html);
    html.take(at) + script_bytes() + html.skip(at)
}

/// Putting the script in changes nothing else of the page: what stood before
/// the injection point and what stood after it are kept, with the script in
/// between.
pub proof fn lemma_with_script_keeps_page(html: Seq<u8>)
    ensures
        0 <= injection_point(html) <= html.len(),
        with_script(html).len() == html.len() + script_bytes().len(),
        with_script(html).take(injection_point(html)) == html.take(injection_point(html)),
        with_script(html).subrange(
            injection_point(html),
            injection_point(html) + script_bytes().len(),
        ) == script_bytes(),
        with_script(html).skip(injection_point(html) + script_bytes().len()) == html.skip(
            injection_point(html),
        ),
{
    lemma_last_occurrence_in_range(html, body_end());
    lemma_last_occurrence_in_range(html, html_end());
    let at = injection_point(html);
    let out = with_script(html);
    assert(out.take(at) =~= html.take(at));
    assert(out.subrange(at, at + script_bytes().len()) =~= script_bytes());
    assert(out.skip(at + script_bytes().len()) =~= html.skip(at));
}

/// Puts `insert` into `v` before index `at`.
pub fn insert_bytes(v: &mut Vec<u8>, at: usize, insert: &[u8])
    requires
        at <= old(v)@.len(),
    ensures
        final(v)@ == old(v)@.take(at as int) + insert@ + old(v)@.skip(at as int),
{
    let tail = copy_range(v.as_slice(), at, v.len());
    v.truncate(at);
    append(v, insert);
    append(v, tail.as_slice());
    assert(tail@ =~= old(v)@.skip(at as int));
}

/// Puts the live-reload script into a page: before the last `</body>`, else
/// before the last `</html>`, else at the end.
pub fn inject_livereload_script(html: &mut Vec<u8>)
    ensures
        final(html)@ == with_script(old(html)@),
{
    let body = "</body>".as_bytes();
    let page = "</html>".as_bytes();
    let at: usize = match find_last_occurrence(html.as_slice(), body) {
        Some(i) => i,
        None => match find_last_occurrence(html.as_slice(), page) {
            Some(i) => i,
            None => html.len(),
        },
    };
    assert(at as int == injection_point(html@));
    assert(at <= html@.len()) by {
        lemma_last_occurrence_in_range(html@, body@);
        lemma_last_occurrence_in_range(html@, page@);
    }
    insert_bytes(html, at, LIVE_RELOAD_SCRIPT.as_bytes());
}

/// The content type of a file with the given extension.
pub open spec fn mime_type(ext: Option<Seq<u8>>) -> Seq<u8> {
    match ext {
        None => bytes_of("application/octet-stream"),
        Some(e) => if e == bytes_of("html") {
            bytes_of("text/html; charset=utf-8")
        } else if e == bytes_of("css") {
            bytes_of("text/css; charset=utf-8")
        } else if e == bytes_of("js") {
            bytes_of("application/javascript; charset=utf-8")
        } else if e == bytes_of("json") {
            bytes_of("application/json")
        } else if e == bytes_of("png") {
            bytes_of("image/png")
        } else if e == bytes_of("jpg") || e == bytes_of("jpeg") {
            bytes_of("image/jpeg")
        } else if e == bytes_of("gif") {
            bytes_of("image/gif")
        } else if e == bytes_of("svg") {
            bytes_of("image/svg+xml")
        } else if e == bytes_of("ico") {
            bytes_of("image/x-icon")
        } else if e == bytes_of("woff") {
            bytes_of("font/woff")
        } else if e == bytes_of("woff2") {
            bytes_of("font/woff2")
        } else if e == bytes_of("ttf") {
            bytes_of("font/ttf")
        } else if e == bytes_of("pdf") {
            bytes_of("application/pdf")
        } else {
            bytes_of("application/octet-stream")
        },
    }
}

/// Whether a file with the given extension is a page that gets the script.
pub open spec fn is_page(ext: Option<Seq<u8>>) -> bool {
    ext == Some(bytes_of("html"))
}

/// Guesses the content type of a file from the extension of its path.
pub fn guess_mime_type(path: &[u8]) -> (r: &'static str)
    ensures
        bytes_of(r) == mime_type(extension(path@)),
{
    let ext = match get_extension(path) {
        Some(e) => e,
        None => {
            return "application/octet-stream";
        },
    };
    let e = ext.as_slice();
    if bytes_eq(e, "html".as_bytes()) {
        "text/html; charset=utf-8"
    } else if bytes_eq(e, "css".as_bytes()) {
        "text/css; charset=utf-8"
    } else if bytes_eq(e, "js".as_bytes()) {
        "application/javascript; charset=utf-8"
    } else if bytes_eq(e, "json".as_bytes()) {
        "application/json"
    } else if bytes_eq(e, "png".as_bytes()) {
        "image/png"
    } else if bytes_eq(e, "jpg".as_bytes()) || bytes_eq(e, "jpeg".as_bytes()) {
        "image/jpeg"
    } else if bytes_eq(e, "gif".as_bytes()) {
        "image/gif"
    } else if bytes_eq(e, "svg".as_bytes()) {
        "image/svg+xml"
    } else if bytes_eq(e, "ico".as_bytes()) {
        "image/x-icon"
    } else if bytes_eq(e, "woff".as_bytes()) {
        "font/woff"
    } else if bytes_eq(e, "woff2".as_bytes()) {
        "font/woff2"
    } else if bytes_eq(e, "ttf".as_bytes()) {
        "font/ttf"
    } else if bytes_eq(e, "pdf".as_bytes()) {
        "application/pdf"
    } else {
        "application/octet-stream"
    }
}

/// The line feed that ends a line.
pub const LINE_FEED: u8 = 10;

/// The carriage return that may stand before a line feed.
pub const CARRIAGE_RETURN: u8 = 13;

/// The index of the first `b` in `s`, or the length of `s` without one.
pub open spec fn first_index_of(s: Seq<u8>, b: u8) -> int
    decreases s.len(),
{
    if s.len() == 0 || s[0] == b {
        0
    } else {
        1 + first_index_of(s.skip(1), b)
    }
}

/// The first line of a request: the bytes before the first line feed,
/// without a carriage return at their end.
pub open spec fn request_line(request: Seq<u8>) -> Seq<u8> {
    let line = request.take(first_index_of(request, LINE_FEED));
    if line.len() > 0 && line.last() == CARRIAGE_RETURN {
        line.drop_last()
    } else {
        line
    }
}

/// Cuts the first line out of what a client sent.
pub fn first_line(request: &[u8]) -> (r: Vec<u8>)
    ensures
        r@ == request_line(request@),
{
    let mut end: usize = 0;
    assert(request@.skip(0) =~= request@);
    while end < request.len() && request[end] != LINE_FEED
        invariant
            end <= request.len(),
            first_index_of(request@, LINE_FEED) == end + first_index_of(
                request@.skip(end as int),
                LINE_FEED,
            ),
        decreases request.len() - end,
    {
        assert(request@.skip(end as int).skip(1) =~= request@.skip(end as int + 1));
        end = end + 1;
    }
    assert(first_index_of(request@, LINE_FEED) == end);
    let stop: usize = if end > 0 && request[end - 1] == CARRIAGE_RETURN {
        end - 1
    } else {
        end
    };
    let line = copy_range(request, 0, stop);
    assert(line@ =~= request_line(request@));
    line
}

/// What a request line asks for.
pub enum RequestTarget {
    /// The stream of reload events.
    LiveReload,
    /// The file at the given URL path.
    File(Seq<u8>),
    /// Nothing that the server offers.
    Unsupported,
}

/// What a request line asks for.
#[derive(Debug)]
pub enum Request {
    /// The stream of reload events.
    LiveReload,
    /// The file at the given URL path.
    File(Vec<u8>),
    /// Nothing that the server offers.
    Unsupported,
}

impl View for Request {
    type V = RequestTarget;

    open spec fn view(&self) -> RequestTarget {
        match *self {
            Request::LiveReload => RequestTarget::LiveReload,
            Request::File(p) => RequestTarget::File(p@),
            Request::Unsupported => RequestTarget::Unsupported,
        }
    }
}

/// The front of every request line that is served.
pub open spec fn request_prefix() -> Seq<u8> {
    bytes_of("GET ")
}

/// The end of every request line that is served.
pub open spec fn request_suffix() -> Seq<u8> {
    bytes_of(" HTTP/1.1")
}

/// The URL path between `GET ` and ` HTTP/1.1`, where the line has that form.
pub open spec fn url_path(line: Seq<u8>) -> Option<Seq<u8>> {
    let rest = line.skip(request_prefix().len() as int);
    if starts_with(line, request_prefix()) && ends_with(rest, request_suffix()) {
        Some(rest.take(rest.len() - request_suffix().len()))
    } else {
        None
    }
}

/// What a request line asks for. Only `GET` over HTTP/1.1 is served.
pub open spec fn request_target(line: Seq<u8>) -> RequestTarget {
    match url_path(line) {
        None => RequestTarget::Unsupported,
        Some(p) => if p == bytes_of("/livereload") {
            RequestTarget::LiveReload
        } else {
            RequestTarget::File(p)
        },
    }
}

/// Reads the first line of a request, without its line end.
pub fn parse_request_line(line: &[u8]) -> (r: Request)
    ensures
        r@ == request_target(line@),
{
    let prefix = "GET ".as_bytes();
    let suffix = " HTTP/1.1".as_bytes();
    if !has_prefix(line, prefix) {
        return Request::Unsupported;
    }
    let rest = copy_range(line, prefix.len(), line.len());
    assert(rest@ =~= line@.skip(prefix@.len() as int));
    if !has_suffix(rest.as_slice(), suffix) {
        return Request::Unsupported;
    }
    let target = copy_range(rest.as_slice(), 0, rest.len() - suffix.len());
    assert(target@ =~= rest@.take(rest@.len() - suffix@.len()));
    if bytes_eq(target.as_slice(), "/livereload".as_bytes()) {
        Request::LiveReload
    } else {
        Request::File(target)
    }
}

/// The file below the output root that a URL path names: separators at the
/// front and at the end of the URL path do not count.
pub open spec fn requested_file(output_root: Seq<u8>, url_path: Seq<u8>) -> Seq<u8> {
    join(output_root, trim_trailing(trim_leading(url_path, SEPARATOR), SEPARATOR))
}

/// Maps a URL path to the file below the output root that it names.
pub fn requested_path(output_root: &[u8], url_path: &[u8]) -> (r: Vec<u8>)
    ensures
        r@ == requested_file(output_root@, url_path@),
{
    let front_trimmed = trim_leading_bytes(url_path, SEPARATOR);
    let trimmed = trim_trailing_bytes(front_trimmed.as_slice(), SEPARATOR);
    join_paths(output_root, trimmed.as_slice())
}

/// What the file system holds at a path.
#[derive(Clone, Copy, Debug, PartialEq, Eq, Structural)]
pub enum FileKind {
    /// Nothing.
    Missing,
    /// A file.
    File,
    /// A directory.
    Directory,
}

/// What to do next for a requested file, as paths over byte sequences.
pub enum LookupPlan {
    /// Read this file and answer with it, or with "not found" if it is missing.
    Read(Seq<u8>),
    /// Ask whether this file exists: the requested name with `.html` added.
    ProbeFallback(Seq<u8>),
}

/// What to do next for a requested file.
#[derive(Debug)]
pub enum LookupStep {
    /// Read this file and answer with it, or with "not found" if it is missing.
    Read(Vec<u8>),
    /// Ask whether this file exists: the requested name with `.html` added.
    ProbeFallback(Vec<u8>),
}

impl View for LookupStep {
    type V = LookupPlan;

    open spec fn view(&self) -> LookupPlan {
        match *self {
            LookupStep::Read(p) => LookupPlan::Read(p@),
            LookupStep::ProbeFallback(p) => LookupPlan::ProbeFallback(p@),
        }
    }
}

/// The step after learning what stands at the requested path: a directory is
/// answered with its index page, a missing file without extension may exist
/// with `.html`, anything else is read as it is.
pub open spec fn first_lookup(requested: Seq<u8>, kind: FileKind) -> LookupPlan {
    match kind {
        FileKind::Directory => LookupPlan::Read(join(requested, bytes_of("index.html"))),
        FileKind::File => LookupPlan::Read(requested),
        FileKind::Missing => if extension(requested) is None {
            LookupPlan::ProbeFallback(with_extension(requested, bytes_of("html")))
        } else {
            LookupPlan::Read(requested)
        },
    }
}

/// Decides the step after learning what stands at the requested path.
pub fn lookup_step(requested: &[u8], kind: FileKind) -> (r: LookupStep)
    ensures
        r@ == first_lookup(requested@, kind),
{
    match kind {
        FileKind::Directory => LookupStep::Read(join_paths(requested, "index.html".as_bytes())),
        FileKind::File => LookupStep::Read(slice_to_vec(requested)),
        FileKind::Missing => {
            if get_extension(requested).is_none() {
                LookupStep::ProbeFallback(replace_extension(requested, "html".as_bytes()))
            } else {
                LookupStep::Read(slice_to_vec(requested))
            }
        },
    }
}

/// Picks the file to read once it is known whether the `.html` fallback
/// exists.
pub fn lookup_fallback(requested: Vec<u8>, fallback: Vec<u8>, fallback_exists: bool) -> (r: Vec<
    u8,
>)
    ensures
        r@ == if fallback_exists {
            fallback@
        } else {
            requested@
        },
{
    if fallback_exists {
        fallback
    } else {
        requested
    }
}

/// The decimal digits of a number, as ASCII.
pub open spec fn decimal(n: nat) -> Seq<u8>
    decreases n,
{
    if n < 10 {
        seq![(48 + n) as u8]
    } else {
        decimal(n / 10).push((48 + n % 10) as u8)
    }
}

/// Appends the decimal digits of a number.
pub fn push_decimal(v: &mut Vec<u8>, n: usize)
    ensures
        final(v)@ == old(v)@ + decimal(n as nat),
    decreases n,
{
    if n < 10 {
        v.push(48 + n as u8);
        assert(v@ =~= old(v)@ + decimal(n as nat));
    } else {
        push_decimal(v, n / 10);
        v.push(48 + (n % 10) as u8);
        assert(v@ =~= old(v)@ + decimal(n as nat));
    }
}

/// The head of the answer that carries a file: status line and headers, up
/// to and with the empty line. Caching is switched off.
pub open spec fn response_head(content_length: nat, content_type: Seq<u8>) -> Seq<u8> {
    bytes_of("HTTP/1.1 200 OK\r\nContent-Length: ") + decimal(content_length) + bytes_of(
        "\r\nContent-Type: ",
    ) + content_type + bytes_of(
        "\r\nCache-Control: no-cache, no-store, must-revalidate\r\nPragma: no-cache\r\nExpires: 0\r\n\r\n",
    )
}

/// The body sent for a file: a page gets the live-reload script.
pub open spec fn response_body(path: Seq<u8>, content: Seq<u8>) -> Seq<u8> {
    if is_page(extension(path)) {
        with_script(content)
    } else {
        content
    }
}

/// The whole answer that carries the file at `path`.
pub open spec fn file_response(path: Seq<u8>, content: Seq<u8>) -> Seq<u8> {
    let body = response_body(path, content);
    response_head(body.len(), mime_type(extension(path))) + body
}

/// Builds the answer that carries the file at `path` with the given content.
pub fn respond_with_file(path: &[u8], content: Vec<u8>) -> (r: Vec<u8>)
    ensures
        r@ == file_response(path@, content@),
{
    let mime = guess_mime_type(path);
    let page = match get_extension(path) {
        Some(e) => bytes_eq(e.as_slice(), "html".as_bytes()),
        None => false,
    };
    let mut body = content;
    if page {
        inject_livereload_script(&mut body);
    }
    let mut out: Vec<u8> = Vec::new();
    append(&mut out, "HTTP/1.1 200 OK\r\nContent-Length: ".as_bytes());
    push_decimal(&mut out, body.len());
    append(&mut out, "\r\nContent-Type: ".as_bytes());
    append(&mut out, mime.as_bytes());
    append(
        &mut out,
        "\r\nCache-Control: no-cache, no-store, must-revalidate\r\nPragma: no-cache\r\nExpires: 0\r\n\r\n".as_bytes(),
    );
    append(&mut out, body.as_slice());
    out
}

/// The answer to a request that names nothing the server has.
pub fn not_found_response() -> (r: Vec<u8>)
    ensures
        r@ == bytes_of("HTTP/1.1 404 NOT FOUND\r\nContent-Length: 10\r\n\r\nError 404."),
{
    slice_to_vec("HTTP/1.1 404 NOT FOUND\r\nContent-Length: 10\r\n\r\nError 404.".as_bytes())
}

/// The head of the answer that opens the stream of reload events.
pub fn event_stream_head() -> (r: Vec<u8>)
    ensures
        r@ == bytes_of(
            "HTTP/1.1 200 OK\r\nContent-Type: text/event-stream\r\nCache-Control: no-cache\r\nConnection: keep-alive\r\n\r\n",
        ),
{
    slice_to_vec(
        "HTTP/1.1 200 OK\r\nContent-Type: text/event-stream\r\nCache-Control: no-cache\r\nConnection: keep-alive\r\n\r\n".as_bytes(),
    )
}

/// The event frame that tells a page to reload.
pub fn reload_event() -> (r: Vec<u8>)
    ensures
        r@ == bytes_of("data: reload\r\n\r\n"),
{
    slice_to_vec("data: reload\r\n\r\n".as_bytes())
}

/// The first port that the server tries to bind.
pub const FIRST_PORT: u16 = 8000;

/// The end of the range of ports that the server tries: the first port that
/// it does not try.
pub const PORT_LIMIT: u16 = 8050;

/// How an attempt to bind a port ended.
#[derive(Clone, Copy, Debug, PartialEq, Eq, Structural)]
pub enum BindOutcome {
    /// The port is bound.
    Bound,
    /// The address is already in use.
    InUse,
    /// Binding failed for another reason.
    Failed,
}

/// What to do after an attempt to bind a port.
#[derive(Clone, Copy, Debug, PartialEq, Eq, Structural)]
pub enum BindStep {
    /// Serve on this port.
    Serve(u16),
    /// Try this port next.
    Try(u16),
    /// Every port of the range is in use: give up.
    Exhausted,
    /// The failure is fatal: give up.
    Abort,
}

/// The step after an attempt to bind `port`: a busy port leads to the next
/// one while the range lasts, any other failure is fatal.
pub open spec fn bind_step(port: u16, outcome: BindOutcome) -> BindStep {
    match outcome {
        BindOutcome::Bound => BindStep::Serve(port),
        BindOutcome::Failed => BindStep::Abort,
        BindOutcome::InUse => if port + 1 < PORT_LIMIT {
            BindStep::Try((port + 1) as u16)
        } else {
            BindStep::Exhausted
        },
    }
}

/// Decides the step after an attempt to bind `port`.
pub fn after_bind(port: u16, outcome: BindOutcome) -> (r: BindStep)
    ensures
        r == bind_step(port, outcome),
{
    match outcome {
        BindOutcome::Bound => BindStep::Serve(port),
        BindOutcome::Failed => BindStep::Abort,
        BindOutcome::InUse => {
            if port < PORT_LIMIT - 1 {
                BindStep::Try(port + 1)
            } else {
                BindStep::Exhausted
            }
        },
    }
}

/// The items whose flag is set, in their order. An item without a flag is
/// dropped.
pub open spec fn kept<T>(items: Seq<T>, keep: Seq<bool>) -> Seq<T>
    decreases items.len(),
{
    if items.len() == 0 {
        Seq::empty()
    } else {
        let rest = kept(items.drop_last(), keep);
        if items.len() <= keep.len() && keep[items.len() - 1] {
            rest.push(items.last())
        } else {
            rest
        }
    }
}

/// Drops from the registry every client whose last write failed: `written[i]`
/// says whether the write to `clients[i]` succeeded.
pub fn prune_clients<T>(clients: Vec<T>, written: &Vec<bool>) -> (r: Vec<T>)
    ensures
        r@ == kept(clients@, written@),
{
    let ghost all = clients@;
    let mut rest = clients;
    let mut kept_reversed: Vec<T> = Vec::new();
    // Take the clients off the end, keeping those that were written to.
    while rest.len() > 0
        invariant
            rest@ == all.take(rest@.len() as int),
            rest@.len() <= all.len(),
            kept(all, written@) == kept(rest@, written@) + kept_reversed@.reverse(),
        decreases rest.len(),
    {
        let i: usize = rest.len() - 1;
        let ghost before = rest@;
        let ghost tail_before = kept_reversed@;
        let item = rest.pop().unwrap();
        assert(rest@ =~= before.drop_last());
        let keep = i < written.len() && written[i];
        if keep {
            kept_reversed.push(item);
            assert(kept_reversed@.reverse() =~= seq![item] + tail_before.reverse());
            assert(kept(before, written@) =~= kept(rest@, written@).push(item));
            assert(kept(rest@, written@).push(item) + tail_before.reverse() =~= kept(
                rest@,
                written@,
            ) + kept_reversed@.reverse());
        }
    }
    let mut out: Vec<T> = Vec::new();
    while kept_reversed.len() > 0
        invariant
            kept(all, written@) == out@ + kept_reversed@.reverse(),
        decreases kept_reversed.len(),
    {
        let ghost before = kept_reversed@;
        let ghost out_before = out@;
        let item = kept_reversed.pop().unwrap();
        out.push(item);
        assert(before.reverse() =~= seq![item] + kept_reversed@.reverse());
        assert(out@ + kept_reversed@.reverse() =~= out_before + before.reverse());
    }
    assert(kept_reversed@.reverse() =~= Seq::<T>::empty());
    assert(out@ + Seq::<T>::empty() =~= out@);
    out
}

} // verus!
