//! Feed sources and the parsing of a fetched network-list feed: one prefix
//! per line, trailing comments stripped, with a staleness guard on the
//! modification-time header.

use vstd::prelude::*;
use crate::Error;
use crate::net::{parse_network, parsed_network, NetworkPrefix, NetworkSet};
use crate::text::{
    is_marker, lemma_comment_start_at, lines_of, split_lines, str_views, strip_comment, trim,
    trim_str,
};
use crate::timestamp::{parse_rfc2822, rfc2822_timestamp, Timestamp};

verus! {

/// A configured feed: one of the three built-in severity levels of the
/// public aggregate list, or a user-defined name and URL.
pub enum Source {
    FireHolLevel1,
    FireHolLevel2,
    FireHolLevel3,
    Custom { name: String, url: String },
}

impl Source {
    /// The stable name, used as the set and rule identifier.
    pub open spec fn spec_name(&self) -> Seq<char> {
        match self {
            Source::FireHolLevel1 => "firehol-level1"@,
            Source::FireHolLevel2 => "firehol-level2"@,
            Source::FireHolLevel3 => "firehol-level3"@,
            Source::Custom { name, .. } => name@,
        }
    }

    /// The URL the feed is fetched from.
    pub open spec fn spec_url(&self) -> Seq<char> {
        match self {
            Source::FireHolLevel1 => "https://iplists.firehol.org/files/firehol_level1.netset"@,
            Source::FireHolLevel2 => "https://iplists.firehol.org/files/firehol_level2.netset"@,
            Source::FireHolLevel3 => "https://iplists.firehol.org/files/firehol_level3.netset"@,
            Source::Custom { url, .. } => url@,
        }
    }

    pub fn name(&self) -> (r: &str)
        ensures
            r@ == self.spec_name(),
    {
        match self {
            Source::FireHolLevel1 => "firehol-level1",
            Source::FireHolLevel2 => "firehol-level2",
            Source::FireHolLevel3 => "firehol-level3",
            Source::Custom { name, .. } => name.as_str(),
        }
    }

    pub fn url(&self) -> (r: &str)
        ensures
            r@ == self.spec_url(),
    {
        match self {
            Source::FireHolLevel1 => "https://iplists.firehol.org/files/firehol_level1.netset",
            Source::FireHolLevel2 => "https://iplists.firehol.org/files/firehol_level2.netset",
            Source::FireHolLevel3 => "https://iplists.firehol.org/files/firehol_level3.netset",
            Source::Custom { url, .. } => url.as_str(),
        }
    }
}

fn marker_at(s: &str, i: usize) -> (r: bool)
    requires
        i < s@.len(),
    ensures
        r == is_marker(s@[i as int]),
{
    let c = s.get_char(i);
    c == ';' || c == '#'
}

/// The content of a line before any trailing comment: a comment begins at
/// the first `;` or `#`, and the marker and everything after it is discarded.
pub fn extract_comment(line: &str) -> (r: &str)
    ensures
        r@ == strip_comment(line@),
{
    let len = line.unicode_len();
    let mut i: usize = 0;
    while i < len && !marker_at(line, i)
        invariant
            i <= len,
            len == line@.len(),
            forall|j: int| 0 <= j < i ==> !is_marker(line@[j]),
        decreases len - i,
    {
        i = i + 1;
    }
    proof {
        lemma_comment_start_at(line@, i as int);
        assert(line@.subrange(0, i as int) =~= line@.take(i as int));
    }
    line.substring_char(0, i)
}

/// What a line contributes: its text before any comment, trimmed.
pub open spec fn line_content(l: Seq<char>) -> Seq<char> {
    trim(strip_comment(l))
}

/// Folding the lines of a body into a set of prefixes: empty contents are
/// skipped, any other content must parse as a network prefix, duplicates
/// collapse. `None` where some non-empty line does not parse.
pub open spec fn parse_lines(ls: Seq<Seq<char>>, acc: Set<NetworkPrefix>) -> Option<
    Set<NetworkPrefix>,
>
    decreases ls.len(),
{
    if ls.len() == 0 {
        Some(acc)
    } else {
        let c = line_content(ls[0]);
        if c.len() == 0 {
            parse_lines(ls.skip(1), acc)
        } else {
            match parsed_network(c) {
                Some(p) => parse_lines(ls.skip(1), acc.insert(p)),
                None => None,
            }
        }
    }
}

/// The set of prefixes a feed body denotes, or `None` where a non-empty
/// line is not a valid prefix.
pub open spec fn body_networks(s: Seq<char>) -> Option<Set<NetworkPrefix>> {
    parse_lines(split_lines(s), Set::empty())
}

/// Parse a feed body, one network prefix per line.
pub fn parse_body(body: &str) -> (r: Result<NetworkSet, Error>)
    ensures
        r is Ok <==> body_networks(body@) is Some,
        r is Ok ==> r->Ok_0@ == body_networks(body@)->Some_0,
        r is Ok ==> r->Ok_0.wf(),
        r is Err ==> r->Err_0 == Error::PrefixParse,
{
    let lines = lines_of(body);
    let mut ips = NetworkSet::new();
    let n = lines.len();
    let mut i: usize = 0;
    proof {
        assert(str_views(lines@).skip(0) =~~= str_views(lines@));
    }
    while i < n
        invariant
            i <= n,
            n == lines@.len(),
            str_views(lines@) == split_lines(body@),
            ips.wf(),
            parse_lines(str_views(lines@).skip(i as int), ips@) == body_networks(body@),
        decreases n - i,
    {
        proof {
            assert(str_views(lines@).skip(i as int)[0] == str_views(lines@)[i as int]);
            assert(str_views(lines@).skip(i as int).skip(1) =~~= str_views(lines@).skip(
                i as int + 1,
            ));
        }
        let stripped = extract_comment(lines[i]);
        let content = trim_str(stripped);
        if !content.is_empty() {
            match parse_network(content) {
                Ok(p) => {
                    ips.insert(p);
                },
                Err(_) => {
                    return Err(Error::PrefixParse);
                },
            }
        }
        i = i + 1;
    }
    proof {
        assert(str_views(lines@).skip(n as int) =~~= Seq::<Seq<char>>::empty());
    }
    Ok(ips)
}

/// Parsing idempotence: a body's text determines its membership, so two
/// parses of the same well-formed body yield equal sets.
pub proof fn lemma_parse_idempotent(a: NetworkSet, b: NetworkSet, body: Seq<char>)
    requires
        body_networks(body) is Some,
        a@ == body_networks(body)->Some_0,
        b@ == body_networks(body)->Some_0,
    ensures
        a@ == b@,
{
}

/// The view of an optional header value.
pub open spec fn header_view(h: Option<&str>) -> Option<Seq<char>> {
    match h {
        Some(v) => Some(v@),
        None => None,
    }
}

/// What a fetch yields from the previous watermark, the modification-time
/// header (if any) and the body text. Where the header reports a timestamp
/// strictly older than the previous watermark, the result is an empty set
/// with the previous watermark unchanged, and the body plays no part.
pub open spec fn fetch_outcome(
    lm: Option<Timestamp>,
    header: Option<Seq<char>>,
    body: Seq<char>,
) -> Result<(Set<NetworkPrefix>, Option<Timestamp>), Error> {
    match header {
        None => match body_networks(body) {
            Some(s) => Ok((s, lm)),
            None => Err(Error::PrefixParse),
        },
        Some(h) => match rfc2822_timestamp(h) {
            None => Err(Error::TimestampParse),
            Some(t0) => if lm is Some && t0.spec_lt(lm->0) {
                Ok((Set::empty(), lm))
            } else {
                match body_networks(body) {
                    Some(s) => Ok((s, Some(t0))),
                    None => Err(Error::PrefixParse),
                }
            },
        },
    }
}

/// Staleness guard: where the response reports a timestamp strictly older
/// than the previous watermark, the outcome is an empty set paired with the
/// previous watermark unchanged — never the older timestamp — whatever the
/// body holds.
pub proof fn lemma_staleness_guard(t1: Timestamp, header: Seq<char>, body: Seq<char>)
    requires
        rfc2822_timestamp(header) is Some,
        rfc2822_timestamp(header)->0.spec_lt(t1),
    ensures
        fetch_outcome(Some(t1), Some(header), body) == Ok::<
            (Set<NetworkPrefix>, Option<Timestamp>),
            Error,
        >((Set::empty(), Some(t1))),
{
}

/// Reads one source's feed.
pub struct Provider<'a> {
    source: &'a Source,
}

impl<'a> Provider<'a> {
    /// The source this provider reads.
    pub closed spec fn spec_source(&self) -> &'a Source {
        self.source
    }

    pub fn new(source: &'a Source) -> (r: Self)
        ensures
            r.spec_source() == source,
    {
        Provider { source }
    }

    /// Evaluate one fetched response: the previous watermark, the value of
    /// the modification-time header if the response carried one, and the body
    /// text. Returns the parsed set and the new watermark; on a header
    /// reporting a timestamp strictly older than the previous watermark, an
    /// empty set and the previous watermark (the staleness guard).
    pub fn get(&self, lm: Option<Timestamp>, header: Option<&str>, body: &str) -> (r: Result<
        (NetworkSet, Option<Timestamp>),
        Error,
    >)
        ensures
            r is Ok <==> fetch_outcome(lm, header_view(header), body@) is Ok,
            r is Ok ==> r->Ok_0.0@ == fetch_outcome(lm, header_view(header), body@)->Ok_0.0,
            r is Ok ==> r->Ok_0.1 == fetch_outcome(lm, header_view(header), body@)->Ok_0.1,
            r is Ok ==> r->Ok_0.0.wf(),
            r is Err ==> r->Err_0 == fetch_outcome(lm, header_view(header), body@)->Err_0,
    {
        let new_lm: Option<Timestamp> = match header {
            Some(value) => {
                match parse_rfc2822(value) {
                    Ok(t0) => {
                        if let Some(prev) = lm {
                            if t0.is_before(&prev) {
                                return Ok((NetworkSet::new(), lm));
                            }
                        }
                        Some(t0)
                    },
                    Err(_) => {
                        return Err(Error::TimestampParse);
                    },
                }
            },
            None => lm,
        };
        let ips = match parse_body(body) {
            Ok(s) => s,
            Err(e) => {
                return Err(e);
            },
        };
        Ok((ips, new_lm))
    }
}

} // verus!
