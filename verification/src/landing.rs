//! The documentation page.

use vstd::prelude::*;
use crate::api::{header_views, set_header, Header, TextReply};

verus! {

pub open spec fn page_headers() -> Seq<(Seq<char>, Seq<char>)> {
    seq![
        ("content-type"@, "text/html; charset=utf-8"@),
        ("cache-control"@, "public, max-age=300"@),
        ("x-content-type-options"@, "nosniff"@),
    ]
}

/// The page with its headers: it may be kept for five minutes.
pub fn page(html: String) -> (r: TextReply)
    ensures
        r.status == 200,
        header_views(r.headers@) == page_headers(),
        r.body == Some(html),
{
    let mut h: Vec<Header> = Vec::new();
    assert(header_views(h@) =~= Seq::empty());
    set_header(&mut h, "content-type", "text/html; charset=utf-8");
    set_header(&mut h, "cache-control", "public, max-age=300");
    set_header(&mut h, "x-content-type-options", "nosniff");
    assert(header_views(h@) =~= page_headers());
    TextReply { status: 200, headers: h, body: Some(html) }
}

} // verus!
