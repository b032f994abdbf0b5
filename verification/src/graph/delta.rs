//! The `/delta` pager: request URLs, and turning a decoded response page into a
//! [`DeltaPage`] whose cursor is the `token` query parameter of `deltaLink`.

use vstd::prelude::*;

use crate::graph::error::{GraphInternalError, GraphInternalErrorView};
use crate::graph::status::{check_status, reply_error, HttpReply};
use crate::protocol::primitives::{DeltaCursor, DriveId};
use crate::protocol::remote::{DeltaPage, RemoteItem};
use crate::text::str_equal;
use crate::urls::GRAPH_BASE;

verus! {

/// The decoded `(key, value)` pairs of the query of `url` (as `url::Url`
/// parses and `form_urlencoded` decodes them), or `None` when `url` does not
/// parse as an absolute URL.
pub uninterp spec fn url_query_pairs_spec(url: Seq<char>) -> Option<Seq<(Seq<char>, Seq<char>)>>;

/// The views of a list of string pairs.
pub open spec fn pairs_view(v: Seq<(String, String)>) -> Seq<(Seq<char>, Seq<char>)> {
    v.map_values(|p: (String, String)| (p.0@, p.1@))
}

/// `url::Url::parse` followed by `Url::query_pairs`, each pair made owned.
/// The contract names the outcome; it depends on `url` alone.
#[verifier::external_body]
fn url_query_pairs(url: &str) -> (r: Option<Vec<(String, String)>>)
    ensures
        match r {
            Some(v) => url_query_pairs_spec(url@) == Some(pairs_view(v@)),
            None => url_query_pairs_spec(url@) is None,
        },
{
    let parsed = match url::Url::parse(url) {
        Ok(u) => u,
        Err(_) => return None,
    };
    let mut pairs = Vec::new();
    for (k, v) in parsed.query_pairs() {
        pairs.push((k.into_owned(), v.into_owned()));
    }
    Some(pairs)
}

/// Keys under which Graph puts the delta cursor: `token`, or the legacy
/// `$deltaToken`.
pub open spec fn is_token_key(k: Seq<char>) -> bool {
    k == "token"@ || k == "$deltaToken"@
}

/// The value of the first pair whose key is a cursor key.
pub open spec fn first_token(pairs: Seq<(Seq<char>, Seq<char>)>) -> Option<Seq<char>>
    decreases pairs.len(),
{
    if pairs.len() == 0 {
        None
    } else if is_token_key(pairs[0].0) {
        Some(pairs[0].1)
    } else {
        first_token(pairs.drop_first())
    }
}

/// The cursor that a `deltaLink` carries, if any.
pub open spec fn delta_link_token(link: Seq<char>) -> Option<Seq<char>> {
    match url_query_pairs_spec(link) {
        Some(pairs) => first_token(pairs),
        None => None,
    }
}

/// The value of the first `token` / `$deltaToken` pair of `pairs`.
pub fn token_from_pairs(pairs: &[(String, String)]) -> (r: Option<String>)
    ensures
        match first_token(pairs_view(pairs@)) {
            Some(t) => r matches Some(s) && s@ == t,
            None => r is None,
        },
{
    let ghost all = pairs_view(pairs@);
    let n = pairs.len();
    let mut i: usize = 0;
    proof {
        assert(all.skip(0) =~= all);
    }
    while i < n
        invariant
            n == pairs@.len(),
            i <= n,
            all == pairs_view(pairs@),
            first_token(all) == first_token(all.skip(i as int)),
        decreases n - i,
    {
        let (k, v) = &pairs[i];
        proof {
            assert(all.skip(i as int)[0] == (k@, v@));
        }
        if str_equal(k.as_str(), "token") || str_equal(k.as_str(), "$deltaToken") {
            return Some(v.clone());
        }
        proof {
            assert(all.skip(i as int).drop_first() =~= all.skip(i + 1));
        }
        i = i + 1;
    }
    proof {
        assert(all.skip(n as int) =~= Seq::<(Seq<char>, Seq<char>)>::empty());
    }
    None
}

/// The delta cursor in a Graph `@odata.deltaLink` URL: the decoded value of
/// its `token` (or `$deltaToken`) query parameter; `None` when the URL does
/// not parse or has neither parameter.
pub fn extract_token_param(raw: &str) -> (r: Option<String>)
    ensures
        match delta_link_token(raw@) {
            Some(t) => r matches Some(s) && s@ == t,
            None => r is None,
        },
{
    match url_query_pairs(raw) {
        Some(pairs) => token_from_pairs(pairs.as_slice()),
        None => None,
    }
}

/// The `/delta` URL of a drive: the initial scan without a cursor, else with
/// `?token=` and the cursor.
pub open spec fn delta_url_spec(drive_id: Seq<char>, cursor: Option<Seq<char>>) -> Seq<char> {
    match cursor {
        None => GRAPH_BASE@ + "/drives/"@ + drive_id + "/root/delta"@,
        Some(c) => GRAPH_BASE@ + "/drives/"@ + drive_id + "/root/delta?token="@ + c,
    }
}

/// URL of the first `/delta` page for `drive_id`, resuming from `cursor`.
pub fn delta_url(drive_id: &DriveId, cursor: Option<&DeltaCursor>) -> (u: String)
    ensures
        u@ == delta_url_spec(
            drive_id.0@,
            match cursor {
                Some(c) => Some(c.0@),
                None => None,
            },
        ),
{
    let base = String::from_str(GRAPH_BASE).concat("/drives/").concat(drive_id.as_str());
    match cursor {
        None => base.concat("/root/delta"),
        Some(c) => base.concat("/root/delta?token=").concat(c.as_str()),
    }
}

/// The classification of a `/delta` reply: `410 Gone` is `ResyncRequired`
/// under the client's own request id; any other status is classified as
/// [`check_status`] does.
pub fn check_delta_status(reply: &HttpReply, request_id: &str) -> (r: Result<(), GraphInternalError>)
    ensures
        reply.status == 410 ==> (r matches Err(e) && e@ == (GraphInternalErrorView::ResyncRequired {
            request_id: request_id@,
        })),
        reply.status != 410 && 200 <= reply.status <= 299 ==> r is Ok,
        reply.status != 410 && !(200 <= reply.status <= 299) ==> (r matches Err(e) && e@ == reply_error(
            *reply,
            request_id@,
        )),
{
    if reply.status == 410 {
        return Err(GraphInternalError::ResyncRequired { request_id: String::from_str(request_id) });
    }
    check_status(reply, request_id)
}

/// A decoded `/delta` page as a [`DeltaPage`]: items and `nextLink` as they
/// came, the cursor taken from `deltaLink`.
pub fn delta_page_from(
    items: Vec<RemoteItem>,
    next_link: Option<String>,
    delta_link: Option<String>,
) -> (p: DeltaPage)
    ensures
        p.items@ == items@,
        p.next_link == next_link,
        match delta_link {
            Some(l) => match delta_link_token(l@) {
                Some(t) => p.delta_token matches Some(c) && c.0@ == t,
                None => p.delta_token is None,
            },
            None => p.delta_token is None,
        },
{
    let delta_token = match &delta_link {
        Some(l) => match extract_token_param(l.as_str()) {
            Some(t) => Some(DeltaCursor::new(t.as_str())),
            None => None,
        },
        None => None,
    };
    DeltaPage { items, next_link, delta_token }
}

} // verus!
