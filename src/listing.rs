use vstd::prelude::*;
use vstd::string::*;
use crate::error::SyncError;
use crate::text::{ends_with_char, ends_with_char_spec, last_segment, last_segment_spec, str_eq};
use quick_xml::events::Event;
use quick_xml::name::LocalName;
use quick_xml::Reader;

verus! {

/// Name of the manifest resource inside the remote collection.
pub const MANIFEST_NAME: &'static str = "accounts.json";

/// One event of an XML document, with element names reduced to their local part
/// (no namespace prefix) and text unescaped.
pub enum XmlEvent {
    Start(String),
    Empty(String),
    End(String),
    Text(String),
    Other,
}

/// The events that quick-xml reads from a document, or `None` when it finds the
/// document malformed.
pub uninterp spec fn xml_events_of(body: Seq<char>) -> Option<Seq<XmlEvent>>;

/// Relies on quick_xml::Reader (from_str with trimmed text, read_event, local_name,
/// unescape): the events of a document are a function of its text alone.
#[verifier::external_body]
fn xml_events(body: &str) -> (r: Result<Vec<XmlEvent>, String>)
    ensures
        match r {
            Ok(v) => xml_events_of(body@) == Some(v@),
            Err(_) => xml_events_of(body@) is None,
        },
{
    let mut reader = Reader::from_str(body);
    reader.trim_text(true);
    let mut out = Vec::new();
    let name = |n: LocalName| String::from_utf8_lossy(n.as_ref()).into_owned();
    loop {
        out.push(match reader.read_event().map_err(|e| format!("{e:?}"))? {
            Event::Start(e) => XmlEvent::Start(name(e.local_name())),
            Event::Empty(e) => XmlEvent::Empty(name(e.local_name())),
            Event::End(e) => XmlEvent::End(name(e.local_name())),
            Event::Text(e) => XmlEvent::Text(e.unescape().map_err(|e| format!("{e:?}"))?.into_owned()),
            Event::Eof => return Ok(out),
            _ => XmlEvent::Other,
        });
    }
}

/// Percent-decoding of a text as UTF-8, or `None` when the decoded bytes are not UTF-8.
pub uninterp spec fn url_decoded_of(s: Seq<char>) -> Option<Seq<char>>;

/// Relies on urlencoding::decode: the result is a function of the text alone.
#[verifier::external_body]
fn url_decode(s: &str) -> (r: Option<String>)
    ensures
        match r {
            Some(d) => url_decoded_of(s@) == Some(d@),
            None => url_decoded_of(s@) is None,
        },
{
    urlencoding::decode(s).ok().map(|d| d.into_owned())
}

/// What the scan of a listing has seen so far.
pub struct ListingScan {
    pub in_href: bool,
    pub in_collection: bool,
    pub href: Seq<char>,
    /// Last path segment of each entry that is neither a collection nor ends in `/`.
    pub found: Seq<Seq<char>>,
}

pub open spec fn scan_start() -> ListingScan {
    ListingScan { in_href: false, in_collection: false, href: Seq::empty(), found: Seq::empty() }
}

/// How one event moves the scan of a listing.
pub open spec fn scan_step(s: ListingScan, e: XmlEvent) -> ListingScan {
    match e {
        XmlEvent::Start(n) => if n@ == "href"@ {
            ListingScan { in_href: true, in_collection: s.in_collection, href: s.href, found: s.found }
        } else if n@ == "collection"@ {
            ListingScan { in_href: s.in_href, in_collection: true, href: s.href, found: s.found }
        } else {
            s
        },
        XmlEvent::Empty(n) => if n@ == "collection"@ {
            ListingScan { in_href: s.in_href, in_collection: true, href: s.href, found: s.found }
        } else {
            s
        },
        XmlEvent::Text(t) => if s.in_href {
            ListingScan { in_href: s.in_href, in_collection: s.in_collection, href: t@, found: s.found }
        } else {
            s
        },
        XmlEvent::End(n) => if n@ == "href"@ {
            ListingScan { in_href: false, in_collection: s.in_collection, href: s.href, found: s.found }
        } else if n@ == "response"@ {
            ListingScan {
                in_href: s.in_href,
                in_collection: false,
                href: Seq::empty(),
                found: if !s.in_collection && !ends_with_char_spec(s.href, '/') {
                    s.found.push(last_segment_spec(s.href))
                } else {
                    s.found
                },
            }
        } else {
            s
        },
        XmlEvent::Other => s,
    }
}

pub open spec fn scan_events(evs: Seq<XmlEvent>) -> ListingScan
    decreases evs.len(),
{
    if evs.len() == 0 {
        scan_start()
    } else {
        scan_step(scan_events(evs.drop_last()), evs.last())
    }
}

pub open spec fn views(v: Seq<String>) -> Seq<Seq<char>> {
    v.map_values(|s: String| s@)
}

/// The last path segment of each non-collection entry of a listing, in document order.
pub fn member_segments(events: &Vec<XmlEvent>) -> (r: Vec<String>)
    ensures
        views(r@) == scan_events(events@).found,
{
    let mut in_href = false;
    let mut in_collection = false;
    let mut href = String::new();
    let mut found: Vec<String> = Vec::new();
    let mut i: usize = 0;
    while i < events.len()
        invariant
            i <= events@.len(),
            ({
                let s = scan_events(events@.subrange(0, i as int));
                s.in_href == in_href && s.in_collection == in_collection && s.href == href@
                    && s.found == views(found@)
            }),
        decreases events@.len() - i,
    {
        proof {
            assert(events@.subrange(0, i + 1).drop_last() =~= events@.subrange(0, i as int));
        }
        let ghost before = found@;
        match &events[i] {
            XmlEvent::Start(n) => {
                if str_eq(n.as_str(), "href") {
                    in_href = true;
                } else if str_eq(n.as_str(), "collection") {
                    in_collection = true;
                }
            },
            XmlEvent::Empty(n) => {
                if str_eq(n.as_str(), "collection") {
                    in_collection = true;
                }
            },
            XmlEvent::Text(t) => {
                if in_href {
                    href = t.clone();
                }
            },
            XmlEvent::End(n) => {
                if str_eq(n.as_str(), "href") {
                    in_href = false;
                } else if str_eq(n.as_str(), "response") {
                    if !in_collection && !ends_with_char(href.as_str(), '/') {
                        let seg = last_segment(href.as_str());
                        found.push(seg);
                        proof {
                            assert(views(found@) =~= views(before).push(last_segment_spec(href@)));
                        }
                    }
                    in_collection = false;
                    href = String::new();
                }
            },
            XmlEvent::Other => {},
        }
        i = i + 1;
    }
    proof {
        assert(events@.subrange(0, i as int) =~= events@);
    }
    found
}

/// The name that a listed segment stands for: its percent-decoding, or the segment
/// itself when that is not UTF-8.
pub open spec fn decoded_name(seg: Seq<char>) -> Seq<char> {
    match url_decoded_of(seg) {
        Some(d) => d,
        None => seg,
    }
}

/// Whether a decoded name is a member file other than `exclude`.
pub open spec fn is_member_file(name: Seq<char>, exclude: Seq<char>) -> bool {
    name.len() > 0 && !ends_with_char_spec(name, '/') && name != exclude
}

/// The decoded names of `segs` that are member files other than `exclude`, in order.
pub open spec fn member_files_spec(segs: Seq<Seq<char>>, exclude: Seq<char>) -> Seq<Seq<char>>
    decreases segs.len(),
{
    if segs.len() == 0 {
        Seq::empty()
    } else {
        let rest = member_files_spec(segs.drop_last(), exclude);
        let name = decoded_name(segs.last());
        if is_member_file(name, exclude) {
            rest.push(name)
        } else {
            rest
        }
    }
}

/// Decodes the listed segments and keeps the member files other than `exclude`.
pub fn member_files(segs: &Vec<String>, exclude: &str) -> (r: Vec<String>)
    ensures
        views(r@) == member_files_spec(views(segs@), exclude@),
{
    let mut out: Vec<String> = Vec::new();
    let mut i: usize = 0;
    while i < segs.len()
        invariant
            i <= segs@.len(),
            views(out@) == member_files_spec(views(segs@.subrange(0, i as int)), exclude@),
        decreases segs@.len() - i,
    {
        proof {
            assert(views(segs@.subrange(0, i + 1)).drop_last() =~= views(
                segs@.subrange(0, i as int),
            ));
            assert(views(segs@.subrange(0, i + 1)).last() == segs@[i as int]@);
        }
        let ghost before = out@;
        let name = match url_decode(segs[i].as_str()) {
            Some(d) => d,
            None => segs[i].clone(),
        };
        if name.unicode_len() > 0 && !ends_with_char(name.as_str(), '/') && !str_eq(
            name.as_str(),
            exclude,
        ) {
            out.push(name);
            proof {
                assert(views(out@) =~= views(before).push(name@));
            }
        }
        i = i + 1;
    }
    proof {
        assert(segs@.subrange(0, i as int) =~= segs@);
    }
    out
}

/// The member files named in a listing body, other than the manifest.
pub open spec fn listed_files_spec(evs: Seq<XmlEvent>) -> Seq<Seq<char>> {
    member_files_spec(scan_events(evs).found, MANIFEST_NAME@)
}

/// Parses the body of a depth-1 PROPFIND response into the decoded names of the
/// collection's member files, leaving out sub-collections, the collection itself
/// and the manifest.
pub fn parse_listing(body: &str) -> (r: Result<Vec<String>, SyncError>)
    ensures
        match xml_events_of(body@) {
            None => r matches Err(SyncError::ListingUnavailable(_)),
            Some(evs) => r matches Ok(v) && views(v@) == listed_files_spec(evs),
        },
{
    match xml_events(body) {
        Err(fragment) => Err(SyncError::ListingUnavailable(fragment)),
        Ok(evs) => {
            let segs = member_segments(&evs);
            Ok(member_files(&segs, MANIFEST_NAME))
        },
    }
}

} // verus!
