//! The persisted post and the editing form of its tags.

use vstd::prelude::*;
use crate::clock::Timestamp;
use crate::text::{
    is_trimmed, join_spec, join_text, split_spec, split_text, trim_end_spec, trim_spec,
    trim_start_spec, trim_text, views,
};

verus! {

/// A post as it is stored: title, markdown body, image location, summary,
/// publication instant and tags.
pub struct PersistedPost {
    pub title: String,
    pub body: String,
    pub image_url: String,
    pub summary: String,
    pub timestamp: Timestamp,
    pub tags: Vec<String>,
}

/// What a `PersistedPost` holds, as mathematical values.
pub ghost struct PersistedView {
    pub title: Seq<char>,
    pub body: Seq<char>,
    pub image_url: Seq<char>,
    pub summary: Seq<char>,
    pub timestamp: Timestamp,
    pub tags: Seq<Seq<char>>,
}

impl View for PersistedPost {
    type V = PersistedView;

    open spec fn view(&self) -> PersistedView {
        PersistedView {
            title: self.title@,
            body: self.body@,
            image_url: self.image_url@,
            summary: self.summary@,
            timestamp: self.timestamp,
            tags: views(self.tags@),
        }
    }
}

impl PersistedPost {
    pub open spec fn wf(&self) -> bool {
        self.timestamp.wf()
    }
}

/// The tags as one editable text: joined with commas.
pub open spec fn tags_text_spec(tags: Seq<Seq<char>>) -> Seq<char> {
    join_spec(tags, ',')
}

/// The tags read from their editable text: split at each comma, each piece
/// trimmed of surrounding white space. An empty text gives one empty tag.
pub open spec fn tags_from_text_spec(t: Seq<char>) -> Seq<Seq<char>> {
    split_spec(t, ',').map_values(|p: Seq<char>| trim_spec(p))
}

/// Joins the tags with commas.
pub fn tags_text(tags: &Vec<String>) -> (r: String)
    ensures
        r@ == tags_text_spec(views(tags@)),
{
    join_text(tags, ',')
}

/// Splits the tags text at each comma and trims each tag.
pub fn tags_from_text(t: &str) -> (r: Vec<String>)
    ensures
        views(r@) == tags_from_text_spec(t@),
{
    let pieces = split_text(t, ',');
    let mut out: Vec<String> = Vec::new();
    let mut i: usize = 0;
    while i < pieces.len()
        invariant
            i <= pieces@.len(),
            views(pieces@) == split_spec(t@, ','),
            views(out@) =~= views(pieces@).take(i as int).map_values(
                |p: Seq<char>| trim_spec(p),
            ),
        decreases pieces@.len() - i,
    {
        let tag = trim_text(pieces[i].as_str());
        let ghost before = out@;
        out.push(tag);
        proof {
            assert(views(out@) =~= views(before).push(tag@));
            assert(views(pieces@).take(i + 1) =~= views(pieces@).take(i as int).push(
                pieces@[i as int]@,
            ));
        }
        i = i + 1;
    }
    proof {
        assert(views(pieces@).take(pieces@.len() as int) =~= views(pieces@));
    }
    out
}

pub proof fn lemma_trim_trimmed(s: Seq<char>)
    requires
        is_trimmed(s),
    ensures
        trim_spec(s) == s,
{
    assert(trim_start_spec(s) == s);
    assert(trim_end_spec(s) == s);
}

/// An empty tags text gives exactly one tag, the empty one.
pub proof fn lemma_empty_tags_text()
    ensures
        tags_from_text_spec(Seq::empty()) == seq![Seq::<char>::empty()],
{
    assert(split_spec(Seq::<char>::empty(), ',') == seq![Seq::<char>::empty()]);
    assert(trim_spec(Seq::<char>::empty()) == Seq::<char>::empty());
    assert(tags_from_text_spec(Seq::empty()) =~= seq![Seq::<char>::empty()]);
}

/// Tags that are trimmed and hold no comma, at least one of them, come back
/// unchanged from their editable text.
pub proof fn lemma_tags_round_trip(tags: Seq<Seq<char>>)
    requires
        tags.len() > 0,
        forall|i: int| 0 <= i < tags.len() ==> is_trimmed(#[trigger] tags[i]),
        forall|i: int| 0 <= i < tags.len() ==> !(#[trigger] tags[i]).contains(','),
    ensures
        tags_from_text_spec(tags_text_spec(tags)) == tags,
{
    crate::text::lemma_split_join(tags, ',');
    assert forall|i: int| 0 <= i < tags.len() implies trim_spec(#[trigger] tags[i]) == tags[i] by {
        lemma_trim_trimmed(tags[i]);
    }
    assert(tags.map_values(|p: Seq<char>| trim_spec(p)) =~= tags);
}

} // verus!
