//! The shared wire models: path-form resource identifiers and hyperlinks.

pub mod account;
pub mod authors;
pub mod books;
pub mod identifiers;
pub mod works;

use vstd::prelude::*;

use crate::json::{arr_field, field_of, str_field_val, str_of, Json};
use crate::text::{split_char, split_string, str_eq};
use crate::{DecodeError, JsonDecodeError, ParseError};

verus! {

/// A path-form identifier, `"/{authors|books|works}/{id}"` on the wire.
#[derive(Clone, Debug, PartialEq, Eq)]
pub enum OpenLibraryResource {
    Author(String),
    Book(String),
    Work(String),
}

/// The non-empty `/`-separated segments of a path string: both
/// `"/authors/X"` and `"authors/X"` give `["authors", "X"]`.
pub open spec fn path_segments_of(s: Seq<char>) -> Seq<Seq<char>> {
    split_char(s, '/').filter(|p: Seq<char>| p.len() > 0)
}

/// The identifier part of a resource.
pub open spec fn resource_id(res: OpenLibraryResource) -> Seq<char> {
    match res {
        OpenLibraryResource::Author(id) => id@,
        OpenLibraryResource::Book(id) => id@,
        OpenLibraryResource::Work(id) => id@,
    }
}

/// The plural resource-type segment that names a resource on the wire.
pub open spec fn resource_tag(res: OpenLibraryResource) -> Seq<char> {
    match res {
        OpenLibraryResource::Author(_) => "authors"@,
        OpenLibraryResource::Book(_) => "books"@,
        OpenLibraryResource::Work(_) => "works"@,
    }
}

/// The canonical path form of a resource: `/<tag>/<id>`.
pub open spec fn path_of(res: OpenLibraryResource) -> Seq<char> {
    seq!['/'] + resource_tag(res) + seq!['/'] + resource_id(res)
}

/// Whether a string is a well-formed path identifier: at least two
/// non-empty segments, the first naming a known resource type.
pub open spec fn path_parses(s: Seq<char>) -> bool {
    let segs = path_segments_of(s);
    &&& segs.len() >= 2
    &&& (segs[0] == "authors"@ || segs[0] == "books"@ || segs[0] == "works"@)
}

/// Whether `res` is what parsing a path with non-empty segments `segs`
/// must return: the first segment picks the variant, the second is the
/// identifier, later segments are ignored.
pub open spec fn parsed_resource(res: OpenLibraryResource, segs: Seq<Seq<char>>) -> bool {
    match res {
        OpenLibraryResource::Author(id) => segs[0] == "authors"@ && id@ == segs[1],
        OpenLibraryResource::Book(id) => segs[0] == "books"@ && id@ == segs[1],
        OpenLibraryResource::Work(id) => segs[0] == "works"@ && id@ == segs[1],
    }
}

impl OpenLibraryResource {
    /// The bare identifier, without the resource-type prefix.
    pub fn value(&self) -> (r: String)
        ensures
            r@ == resource_id(*self),
    {
        match self {
            OpenLibraryResource::Author(id) => id.clone(),
            OpenLibraryResource::Book(id) => id.clone(),
            OpenLibraryResource::Work(id) => id.clone(),
        }
    }

    /// Parses a `"/resource/id"` path identifier. Empty segments are
    /// discarded, so a missing leading slash is accepted; segments after
    /// the second are ignored. At least two non-empty segments are
    /// required, and the first must name a known resource type.
    pub fn parse_path(s: &str) -> (r: Result<OpenLibraryResource, ParseError>)
        ensures
            ({
                let segs = path_segments_of(s@);
                match r {
                    Ok(res) => segs.len() >= 2 && parsed_resource(res, segs),
                    Err(ParseError::MalformedIdentifier { raw }) => segs.len() < 2 && raw@ == s@,
                    Err(ParseError::UnknownResourceType { segment }) => segs.len() >= 2
                        && segs[0] != "authors"@ && segs[0] != "books"@ && segs[0] != "works"@
                        && segment@ == segs[0],
                    Err(_) => false,
                }
            }),
    {
        let pieces = split_string(s, '/');
        let ghost all = pieces@.map_values(|p: String| p@);
        let mut segs: Vec<String> = Vec::new();
        let mut i: usize = 0;
        proof {
            reveal(Seq::filter);
            assert(all.subrange(0, 0).filter(|p: Seq<char>| p.len() > 0) =~= Seq::<
                Seq<char>,
            >::empty());
            assert(segs@.map_values(|p: String| p@) =~= Seq::<Seq<char>>::empty());
        }
        while i < pieces.len()
            invariant
                i <= pieces.len(),
                all == pieces@.map_values(|p: String| p@),
                segs@.map_values(|p: String| p@) =~~= all.subrange(0, i as int).filter(
                    |p: Seq<char>| p.len() > 0,
                ),
            decreases pieces.len() - i,
        {
            let ghost prev = segs@.map_values(|p: String| p@);
            proof {
                reveal(Seq::filter);
                assert(all.subrange(0, i + 1).drop_last() =~= all.subrange(0, i as int));
                assert(all.subrange(0, i + 1).last() == all[i as int]);
            }
            if !pieces[i].as_str().is_empty() {
                let piece = pieces[i].clone();
                proof {
                    assert(piece@ == all[i as int]);
                    assert(all[i as int].len() > 0);
                }
                segs.push(piece);
                proof {
                    assert(segs@.map_values(|p: String| p@) =~~= prev.push(all[i as int]));
                }
            } else {
                proof {
                    assert(all[i as int].len() == 0);
                }
            }
            i += 1;
        }
        proof {
            assert(all.subrange(0, pieces@.len() as int) =~= all);
        }
        if segs.len() < 2 {
            return Err(ParseError::MalformedIdentifier { raw: String::from_str(s) });
        }
        let id = segs[1].clone();
        if str_eq(segs[0].as_str(), "authors") {
            Ok(OpenLibraryResource::Author(id))
        } else if str_eq(segs[0].as_str(), "books") {
            Ok(OpenLibraryResource::Book(id))
        } else if str_eq(segs[0].as_str(), "works") {
            Ok(OpenLibraryResource::Work(id))
        } else {
            Err(ParseError::UnknownResourceType { segment: segs[0].clone() })
        }
    }

    /// Serializes back to the canonical `/<tag>/<id>` path form.
    pub fn to_path(&self) -> (r: String)
        ensures
            r@ == path_of(*self),
    {
        let mut out = match self {
            OpenLibraryResource::Author(_) => String::from_str("/authors/"),
            OpenLibraryResource::Book(_) => String::from_str("/books/"),
            OpenLibraryResource::Work(_) => String::from_str("/works/"),
        };
        proof {
            reveal_strlit("/authors/");
            reveal_strlit("/books/");
            reveal_strlit("/works/");
            reveal_strlit("authors");
            reveal_strlit("books");
            reveal_strlit("works");
            assert(out@ =~= seq!['/'] + resource_tag(*self) + seq!['/']);
        }
        match self {
            OpenLibraryResource::Author(id) => out.append(id.as_str()),
            OpenLibraryResource::Book(id) => out.append(id.as_str()),
            OpenLibraryResource::Work(id) => out.append(id.as_str()),
        }
        proof {
            assert(out@ =~= path_of(*self));
        }
        out
    }
}

/// An identifier is canonical when it is non-empty and free of `/`: exactly
/// then its path form parses back to the same resource.
pub open spec fn canonical_resource(res: OpenLibraryResource) -> bool {
    &&& resource_id(res).len() > 0
    &&& forall|i: int| 0 <= i < resource_id(res).len() ==> resource_id(res)[i] != '/'
}

/// Round trip of the path form: for a canonical resource, the segments of
/// `path_of(res)` are exactly `[tag, id]`. Together with the contracts of
/// `parse_path` and `to_path` this says that parsing a serialized resource
/// returns the resource, and serializing a parse of a canonical two-segment
/// path returns the input string.
pub proof fn lemma_path_round_trip(res: OpenLibraryResource)
    requires
        canonical_resource(res),
    ensures
        path_segments_of(path_of(res)) =~= seq![resource_tag(res), resource_id(res)],
{
    let s = path_of(res);
    let tag = resource_tag(res);
    let id = resource_id(res);
    reveal_strlit("authors");
    reveal_strlit("books");
    reveal_strlit("works");
    assert(forall|i: int| 0 <= i < tag.len() ==> tag[i] != '/');
    crate::text::lemma_split_char_first(s, '/', 0);
    let s1 = s.subrange(1, s.len() as int);
    assert(s1 =~= tag + seq!['/'] + id);
    crate::text::lemma_split_char_first(s1, '/', tag.len() as int);
    let s2 = s1.subrange(tag.len() as int + 1, s1.len() as int);
    assert(s2 =~= id);
    crate::text::lemma_split_char_first(s2, '/', s2.len() as int);
    assert(s1.subrange(0, tag.len() as int) =~= tag);
    assert(s.subrange(0, 0) =~= Seq::<char>::empty());
    assert(split_char(s, '/') =~~= seq![Seq::<char>::empty(), tag, id]);
    let pred = |p: Seq<char>| p.len() > 0;
    let empty_seq = Seq::<char>::empty();
    assert(split_char(s, '/').filter(pred) =~= seq![tag, id]) by {
        reveal(Seq::filter);
        let s0 = Seq::<Seq<char>>::empty();
        let s1 = s0.push(empty_seq);
        let s2 = s1.push(tag);
        let s3 = s2.push(id);
        assert(split_char(s, '/') =~~= s3);
        assert(s0.filter(pred) =~= s0);
        assert(s1.drop_last() =~= s0 && s1.last() == empty_seq);
        assert(!pred(empty_seq));
        assert(s1.filter(pred) =~= s0);
        assert(s2.drop_last() =~= s1 && s2.last() == tag);
        assert(pred(tag));
        assert(s2.filter(pred) =~= seq![tag]);
        assert(s3.drop_last() =~= s2 && s3.last() == id);
        assert(pred(id));
        assert(s3.filter(pred) =~= seq![tag, id]);
    }
}

/// A JSON node holding a well-formed path identifier string.
pub open spec fn resource_str_ok(v: Json) -> bool {
    v is Str && path_parses(str_of(v))
}

/// A field holding a path identifier string.
pub open spec fn resource_field_ok(j: Json, key: Seq<char>) -> bool {
    match field_of(j, key) {
        Some(v) => resource_str_ok(v),
        None => false,
    }
}

/// A field holding an array of path identifier strings.
pub open spec fn resource_array_ok(j: Json, key: Seq<char>) -> bool {
    match field_of(j, key) {
        Some(Json::Arr(v)) => forall|i: int|
            0 <= i < v@.len() ==> resource_str_ok(#[trigger] v@[i]),
        _ => false,
    }
}

/// Reads a field holding a path identifier string.
pub fn resource_field(j: &Json, key: &str) -> (r: Result<OpenLibraryResource, DecodeError>)
    ensures
        match r {
            Ok(res) => resource_field_ok(*j, key@) && parsed_resource(
                res,
                path_segments_of(str_field_val(*j, key@)),
            ),
            Err(_) => !resource_field_ok(*j, key@),
        },
{
    match j.get(key) {
        Some(Json::Str(s)) => match OpenLibraryResource::parse_path(s.as_str()) {
            Ok(res) => Ok(res),
            Err(e) => Err(DecodeError::Parse(e)),
        },
        _ => Err(DecodeError::Json(JsonDecodeError { field: String::from_str(key) })),
    }
}

/// Reads a field holding an array of path identifier strings.
#[verifier::loop_isolation(false)]
pub fn resource_array(j: &Json, key: &str) -> (r: Result<Vec<OpenLibraryResource>, DecodeError>)
    ensures
        match r {
            Ok(out) => resource_array_ok(*j, key@) && out@.len() == arr_field(*j, key@).len()
                && forall|i: int|
                0 <= i < out@.len() ==> parsed_resource(
                    #[trigger] out@[i],
                    path_segments_of(str_of(arr_field(*j, key@)[i])),
                ),
            Err(_) => !resource_array_ok(*j, key@),
        },
{
    let arr = match j.get(key) {
        Some(Json::Arr(v)) => v,
        _ => {
            return Err(DecodeError::Json(JsonDecodeError { field: String::from_str(key) }));
        },
    };
    let mut out: Vec<OpenLibraryResource> = Vec::new();
    let mut i: usize = 0;
    while i < arr.len()
        invariant
            i <= arr.len(),
            out@.len() == i,
            forall|k: int| 0 <= k < i ==> resource_str_ok(#[trigger] arr@[k]),
            forall|k: int|
                0 <= k < i ==> parsed_resource(
                    #[trigger] out@[k],
                    path_segments_of(str_of(arr@[k])),
                ),
        decreases arr.len() - i,
    {
        match &arr[i] {
            Json::Str(s) => match OpenLibraryResource::parse_path(s.as_str()) {
                Ok(res) => {
                    out.push(res);
                },
                Err(e) => {
                    proof {
                        assert(!resource_str_ok(arr@[i as int]));
                    }
                    return Err(DecodeError::Parse(e));
                },
            },
            _ => {
                proof {
                    assert(!resource_str_ok(arr@[i as int]));
                }
                return Err(DecodeError::Json(JsonDecodeError { field: String::from_str(key) }));
            },
        }
        i += 1;
    }
    Ok(out)
}

/// A hyperlink attached to an author or book record.
#[derive(Clone, Debug, PartialEq, Eq)]
pub struct Link {
    pub url: String,
    pub title: String,
}

/// The relation a paging link bears to the record that carries it.
#[derive(Clone, Copy, Debug, PartialEq, Eq, Hash)]
pub enum LinkName {
    Author,
    Itself,
    Next,
}

/// The wire token of a paging-link name.
pub open spec fn link_name_token(n: LinkName) -> Seq<char> {
    match n {
        LinkName::Author => "author"@,
        LinkName::Itself => "self"@,
        LinkName::Next => "next"@,
    }
}

/// Parses the wire token of a paging-link name.
pub fn parse_link_name(s: &str) -> (r: Option<LinkName>)
    ensures
        match r {
            Some(n) => link_name_token(n) == s@,
            None => forall|n: LinkName| link_name_token(n) != s@,
        },
{
    let r = if str_eq(s, "author") {
        Some(LinkName::Author)
    } else if str_eq(s, "self") {
        Some(LinkName::Itself)
    } else if str_eq(s, "next") {
        Some(LinkName::Next)
    } else {
        None
    };
    proof {
        if r is None {
            assert forall|n: LinkName| link_name_token(n) != s@ by {
                match n {
                    LinkName::Author => {},
                    LinkName::Itself => {},
                    LinkName::Next => {},
                }
            }
        }
    }
    r
}

/// Marker for the entity types that API endpoints return.
pub trait OpenLibraryModel {

}

} // verus!
