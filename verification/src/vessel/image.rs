//! Container image references.

use vstd::prelude::*;

use crate::text::{concat3, is_prefix, join_on, lemma_join_split, split_char, split_on, starts_with};

verus! {

/// Container image representation.
#[derive(Debug, Clone)]
pub struct Image {
    /// Image ID (digest or hash).
    pub id: String,
    /// Image name.
    pub name: String,
    /// Image tag.
    pub tag: String,
    /// Image size in bytes.
    pub size: u64,
}

/// The name part of a reference: the text before its first `:`.
pub open spec fn reference_name(r: Seq<char>) -> Seq<char> {
    split_on(r, ':')[0]
}

/// The tag part of a reference: the text between its first and second `:`,
/// or `latest` when it has no `:`.
pub open spec fn reference_tag(r: Seq<char>) -> Seq<char> {
    if split_on(r, ':').len() > 1 {
        split_on(r, ':')[1]
    } else {
        "latest"@
    }
}

/// An image made from a reference refers to it again: for a reference with
/// one `:` the name and tag put back together give the reference itself, and
/// a reference without `:` gets the tag `latest`.
pub proof fn lemma_reference_of_new(r: Seq<char>)
    ensures
        split_on(r, ':').len() == 2 ==> reference_name(r) + ":"@ + reference_tag(r) == r,
        split_on(r, ':').len() == 1 ==> reference_name(r) + ":"@ + reference_tag(r) == r
            + ":latest"@,
{
    reveal_strlit(":");
    reveal_strlit(":latest");
    reveal_strlit("latest");
    lemma_join_split(r, ':');
    let ps = split_on(r, ':');
    if ps.len() == 2 {
        assert(ps.drop_last() =~= seq![ps[0]]);
        assert(join_on(ps.drop_last(), ':') == ps[0]);
        assert(":"@ =~= seq![':']);
        assert(reference_name(r) + ":"@ + reference_tag(r) =~= join_on(ps, ':'));
    }
    if ps.len() == 1 {
        assert(":latest"@ =~= ":"@ + "latest"@);
    }
}

impl Image {
    /// Creates an image from a reference: the whole reference is the ID, the
    /// text before the first `:` the name, and the text after it (up to any
    /// second `:`) the tag, which defaults to `latest`.
    pub fn new(name: &str) -> (r: Image)
        ensures
            r.id@ == name@,
            r.name@ == reference_name(name@),
            r.tag@ == reference_tag(name@),
            r.size == 0,
    {
        let parts = split_char(name, ':');
        proof {
            crate::text::lemma_split_on_nonempty(name@, ':');
            assert(parts@[0]@ == split_on(name@, ':')[0]);
        }
        let first = parts[0].clone();
        let tag = if parts.len() > 1 {
            proof {
                assert(parts@[1]@ == split_on(name@, ':')[1]);
            }
            parts[1].clone()
        } else {
            String::from_str("latest")
        };
        Image { id: String::from_str(name), name: first, tag, size: 0 }
    }

    /// Full image reference (`name:tag`).
    pub fn reference(&self) -> (r: String)
        ensures
            r@ == self.name@ + ":"@ + self.tag@,
    {
        concat3(self.name.as_str(), ":", self.tag.as_str())
    }

    /// Whether the tag is a `sha256:` digest.
    pub fn is_digest(&self) -> (r: bool)
        ensures
            r == is_prefix("sha256:"@, self.tag@),
    {
        starts_with(self.tag.as_str(), "sha256:")
    }

    /// The displayed form of the image: `name:tag`.
    pub fn to_string(&self) -> (r: String)
        ensures
            r@ == self.name@ + ":"@ + self.tag@,
    {
        self.reference()
    }
}

} // verus!
