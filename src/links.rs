//! The list of links to download, and the downloader's command lines.
use vstd::prelude::*;

verus! {

#[verifier::external_type_specification]
#[verifier::external_body]
pub struct ExJsonError(serde_json::Error);

/// What decoding `text` as a JSON array of strings yields, or `None` where the text
/// is not such an array.
pub uninterp spec fn json_string_array(text: Seq<char>) -> Option<Seq<Seq<char>>>;

/// Relies on `serde_json::from_str::<Vec<String>>`: it decodes a JSON array of
/// strings, and whether it succeeds and what it yields depend on the text alone.
#[verifier::external_body]
fn decode_string_array(text: &str) -> (r: Result<Vec<String>, serde_json::Error>)
    ensures
        r is Ok <==> json_string_array(text@) is Some,
        r matches Ok(v) ==> json_string_array(text@) == Some(strings_view(v@)),
{
    serde_json::from_str::<Vec<String>>(text)
}

/// The characters of each string of a sequence.
pub open spec fn strings_view(v: Seq<String>) -> Seq<Seq<char>> {
    v.map_values(|x: String| x@)
}

/// An ordered list of links, kept verbatim: duplicates and any form of URL stay.
#[derive(Debug, Clone)]
pub struct DownloadLinks(pub Vec<String>);

impl View for DownloadLinks {
    type V = Seq<Seq<char>>;

    open spec fn view(&self) -> Seq<Seq<char>> {
        strings_view(self.0@)
    }
}

/// Why a list of links could not be had.
#[derive(Debug, Clone, Copy, PartialEq, Eq, Structural)]
pub enum LinkError {
    /// The text is not a JSON array of strings.
    Malformed,
}

/// Turns the outcome of decoding the link file into the list of links.
pub fn links_from_decoded(decoded: Result<Vec<String>, serde_json::Error>) -> (r: Result<
    DownloadLinks,
    LinkError,
>)
    ensures
        decoded is Ok <==> r is Ok,
        decoded matches Ok(v) ==> r matches Ok(l) && l@ == strings_view(v@),
        decoded is Err ==> r == Err::<DownloadLinks, LinkError>(LinkError::Malformed),
{
    match decoded {
        Ok(v) => Ok(DownloadLinks(v)),
        Err(_) => Err(LinkError::Malformed),
    }
}

/// Reads the text of a link file: a JSON array of strings, taken in order.
pub fn parse_link_list(text: &str) -> (r: Result<DownloadLinks, LinkError>)
    ensures
        r is Ok <==> json_string_array(text@) is Some,
        r matches Ok(l) ==> json_string_array(text@) == Some(l@),
        r is Err ==> r == Err::<DownloadLinks, LinkError>(LinkError::Malformed),
{
    links_from_decoded(decode_string_array(text))
}

/// The format selection handed to the downloader: best video up to 720 lines in
/// mp4 with the best m4a audio, or else the best single mp4.
pub const FORMAT_SELECTOR: &'static str = "bv[height<=720][ext=mp4]+ba[ext=m4a]/best[ext=mp4]";

/// The output template, relative to the download directory: the media's title.
pub const TITLE_TEMPLATE: &'static str = "/%(title)s.%(ext)s";

/// The arguments with which the downloader is run for `link`, writing into `dir`.
pub open spec fn download_args_spec(link: Seq<char>, dir: Seq<char>) -> Seq<Seq<char>> {
    seq![
        "-f"@,
        FORMAT_SELECTOR@,
        "--merge-output-format"@,
        "mp4"@,
        "--check-formats"@,
        "--no-part"@,
        "--no-overwrites"@,
        "--progress"@,
        "--newline"@,
        "-o"@,
        dir + TITLE_TEMPLATE@,
        link,
    ]
}

/// The arguments with which the downloader is run for `link`, writing into `dir`.
pub fn download_args(link: &str, dir: &str) -> (r: Vec<String>)
    ensures
        strings_view(r@) == download_args_spec(link@, dir@),
{
    let mut r: Vec<String> = Vec::new();
    r.push("-f".to_owned());
    r.push(FORMAT_SELECTOR.to_owned());
    r.push("--merge-output-format".to_owned());
    r.push("mp4".to_owned());
    r.push("--check-formats".to_owned());
    r.push("--no-part".to_owned());
    r.push("--no-overwrites".to_owned());
    r.push("--progress".to_owned());
    r.push("--newline".to_owned());
    r.push("-o".to_owned());
    let mut template = dir.to_owned();
    template.append(TITLE_TEMPLATE);
    r.push(template);
    r.push(link.to_owned());
    assert(strings_view(r@) =~= download_args_spec(link@, dir@));
    r
}

/// One downloader run per link, in the order of the list: the `i`-th command line
/// is the one for the `i`-th link.
pub fn download_plan(links: &DownloadLinks, dir: &str) -> (r: Vec<Vec<String>>)
    ensures
        r@.len() == links@.len(),
        forall|i: int|
            0 <= i < r@.len() ==> strings_view(#[trigger] r@[i]@) == download_args_spec(
                links@[i],
                dir@,
            ),
{
    let mut r: Vec<Vec<String>> = Vec::new();
    let n = links.0.len();
    let mut i: usize = 0;
    while i < n
        invariant
            n == links@.len(),
            i <= n,
            r@.len() == i,
            forall|k: int|
                0 <= k < i ==> strings_view(#[trigger] r@[k]@) == download_args_spec(
                    links@[k],
                    dir@,
                ),
        decreases n - i,
    {
        r.push(download_args(links.0[i].as_str(), dir));
        i = i + 1;
    }
    r
}

} // verus!
