//! Audience and visibility mapping for ActivityPub objects.
//!
//! Derives an object's visibility from its `to`/`cc` audience, and computes
//! the `to`/`cc` audience for a given visibility, following the common
//! fediverse convention where the public collection and the actor's
//! `followers` collection encode the four visibility levels.

use vstd::prelude::*;

use crate::text::{ends_with, has_suffix, str_eq};
use crate::vocab::ACTIVITYSTREAMS_PUBLIC;

verus! {

/// Suffix identifying an actor's `followers` collection in an audience URI.
pub const FOLLOWERS_SUFFIX: &'static str = "/followers";

/// How widely an object is addressed.
#[derive(Clone, Copy, Debug, Default, PartialEq, Eq, Structural)]
pub enum Visibility {
    /// Addressed to the public collection in `to`: listed publicly.
    #[default]
    Public,
    /// Public collection only in `cc`: public but unlisted.
    Unlisted,
    /// Addressed to a `followers` collection: followers only.
    Private,
    /// Addressed only to specific actors.
    Direct,
}

/// The character sequences of a list of audience URIs.
pub open spec fn uris(list: Seq<String>) -> Seq<Seq<char>> {
    list.map_values(|s: String| s@)
}

/// `u` is the public collection.
pub open spec fn is_public(u: Seq<char>) -> bool {
    u == ACTIVITYSTREAMS_PUBLIC@
}

/// `u` names a `followers` collection.
pub open spec fn is_followers(u: Seq<char>) -> bool {
    has_suffix(u, FOLLOWERS_SUFFIX@)
}

/// Some URI of `list` is the public collection.
pub open spec fn any_public(list: Seq<Seq<char>>) -> bool {
    exists|i: int| 0 <= i < list.len() && is_public(#[trigger] list[i])
}

/// Some URI of `list` names a `followers` collection.
pub open spec fn any_followers(list: Seq<Seq<char>>) -> bool {
    exists|i: int| 0 <= i < list.len() && is_followers(#[trigger] list[i])
}

/// The visibility that a `to` / `cc` audience expresses.
pub open spec fn visibility_of(to: Seq<Seq<char>>, cc: Seq<Seq<char>>) -> Visibility {
    if any_public(to) {
        Visibility::Public
    } else if any_public(cc) {
        Visibility::Unlisted
    } else if any_followers(to) || any_followers(cc) {
        Visibility::Private
    } else {
        Visibility::Direct
    }
}

/// The `(to, cc)` audience addressed for a visibility, a followers collection
/// and the mentioned recipients.
pub open spec fn audience_of(
    visibility: Visibility,
    followers: Seq<char>,
    mentioned: Seq<Seq<char>>,
) -> (Seq<Seq<char>>, Seq<Seq<char>>) {
    match visibility {
        Visibility::Public => (seq![ACTIVITYSTREAMS_PUBLIC@], seq![followers] + mentioned),
        Visibility::Unlisted => (seq![followers], seq![ACTIVITYSTREAMS_PUBLIC@] + mentioned),
        Visibility::Private => (seq![followers], mentioned),
        Visibility::Direct => (mentioned, Seq::empty()),
    }
}

fn contains_uri(list: &[String], target: &str) -> (r: bool)
    ensures
        r == exists|i: int| 0 <= i < list@.len() && (#[trigger] list@[i])@ == target@,
{
    let mut i: usize = 0;
    while i < list.len()
        invariant
            i <= list@.len(),
            forall|j: int| 0 <= j < i ==> (#[trigger] list@[j])@ != target@,
        decreases list@.len() - i,
    {
        if str_eq(list[i].as_str(), target) {
            return true;
        }
        i = i + 1;
    }
    false
}

fn contains_suffix(list: &[String], suffix: &str) -> (r: bool)
    ensures
        r == exists|i: int| 0 <= i < list@.len() && has_suffix((#[trigger] list@[i])@, suffix@),
{
    let mut i: usize = 0;
    while i < list.len()
        invariant
            i <= list@.len(),
            forall|j: int| 0 <= j < i ==> !has_suffix((#[trigger] list@[j])@, suffix@),
        decreases list@.len() - i,
    {
        if ends_with(list[i].as_str(), suffix) {
            return true;
        }
        i = i + 1;
    }
    false
}

/// Derive an object's [`Visibility`] from its `to` / `cc` audience.
pub fn visibility_from_audience(to: &[String], cc: &[String]) -> (v: Visibility)
    ensures
        v == visibility_of(uris(to@), uris(cc@)),
{
    let to_public = contains_uri(to, ACTIVITYSTREAMS_PUBLIC);
    assert(to_public == any_public(uris(to@))) by {
        if to_public {
            let i = choose|i: int| 0 <= i < to@.len() && (#[trigger] to@[i])@ == ACTIVITYSTREAMS_PUBLIC@;
            assert(is_public(uris(to@)[i]));
        }
    }
    if to_public {
        return Visibility::Public;
    }
    let cc_public = contains_uri(cc, ACTIVITYSTREAMS_PUBLIC);
    assert(cc_public == any_public(uris(cc@))) by {
        if cc_public {
            let i = choose|i: int| 0 <= i < cc@.len() && (#[trigger] cc@[i])@ == ACTIVITYSTREAMS_PUBLIC@;
            assert(is_public(uris(cc@)[i]));
        }
    }
    if cc_public {
        return Visibility::Unlisted;
    }
    let to_followers = contains_suffix(to, FOLLOWERS_SUFFIX);
    let cc_followers = contains_suffix(cc, FOLLOWERS_SUFFIX);
    assert(to_followers == any_followers(uris(to@))) by {
        if to_followers {
            let i = choose|i: int| 0 <= i < to@.len() && has_suffix((#[trigger] to@[i])@, FOLLOWERS_SUFFIX@);
            assert(is_followers(uris(to@)[i]));
        }
    }
    assert(cc_followers == any_followers(uris(cc@))) by {
        if cc_followers {
            let i = choose|i: int| 0 <= i < cc@.len() && has_suffix((#[trigger] cc@[i])@, FOLLOWERS_SUFFIX@);
            assert(is_followers(uris(cc@)[i]));
        }
    }
    if to_followers || cc_followers {
        Visibility::Private
    } else {
        Visibility::Direct
    }
}

fn append_copies(dest: &mut Vec<String>, items: &[String])
    ensures
        uris(final(dest)@) == uris(old(dest)@) + uris(items@),
{
    let mut i: usize = 0;
    while i < items.len()
        invariant
            i <= items@.len(),
            uris(dest@) == uris(old(dest)@) + uris(items@.subrange(0, i as int)),
        decreases items@.len() - i,
    {
        let ghost before = dest@;
        let item = items[i].clone();
        dest.push(item);
        assert(uris(dest@) =~= uris(before).push(items@[i as int]@));
        assert(uris(items@.subrange(0, i + 1)) =~= uris(items@.subrange(0, i as int)).push(items@[i as int]@));
        assert(uris(dest@) =~= uris(old(dest)@) + uris(items@.subrange(0, i + 1)));
        i = i + 1;
    }
    assert(items@.subrange(0, items@.len() as int) =~= items@);
}

/// Compute the `(to, cc)` audience for an outgoing object of the given
/// visibility, addressed to the actor's `followers` collection plus any
/// explicitly `mentioned` recipient URIs.
pub fn audience_for(visibility: Visibility, followers: &str, mentioned: &[String]) -> (r: (
    Vec<String>,
    Vec<String>,
))
    ensures
        (uris(r.0@), uris(r.1@)) == audience_of(visibility, followers@, uris(mentioned@)),
{
    let public = String::from_str(ACTIVITYSTREAMS_PUBLIC);
    let followers = String::from_str(followers);
    match visibility {
        Visibility::Public => {
            let mut cc: Vec<String> = Vec::new();
            cc.push(followers);
            append_copies(&mut cc, mentioned);
            let mut to: Vec<String> = Vec::new();
            to.push(public);
            assert(uris(to@) =~= seq![ACTIVITYSTREAMS_PUBLIC@]);
            (to, cc)
        },
        Visibility::Unlisted => {
            let mut cc: Vec<String> = Vec::new();
            cc.push(public);
            append_copies(&mut cc, mentioned);
            let mut to: Vec<String> = Vec::new();
            to.push(followers);
            (to, cc)
        },
        Visibility::Private => {
            let mut to: Vec<String> = Vec::new();
            to.push(followers);
            let mut cc: Vec<String> = Vec::new();
            append_copies(&mut cc, mentioned);
            (to, cc)
        },
        Visibility::Direct => {
            let mut to: Vec<String> = Vec::new();
            append_copies(&mut to, mentioned);
            let cc: Vec<String> = Vec::new();
            assert(uris(cc@) =~= Seq::<Seq<char>>::empty());
            (to, cc)
        },
    }
}

/// The inputs on which addressing an object and deriving its visibility back
/// gives the visibility it was addressed with: the followers collection must
/// not be the public collection where it is addressed, and mentions must not
/// name the public collection (or, for direct messages, any followers
/// collection).
pub open spec fn round_trip_admissible(
    visibility: Visibility,
    followers: Seq<char>,
    mentioned: Seq<Seq<char>>,
) -> bool {
    match visibility {
        Visibility::Public => true,
        Visibility::Unlisted => !is_public(followers),
        Visibility::Private => {
            &&& !is_public(followers)
            &&& !any_public(mentioned)
            &&& (is_followers(followers) || any_followers(mentioned))
        },
        Visibility::Direct => !any_public(mentioned) && !any_followers(mentioned),
    }
}

/// Round trip: the visibility derived from the audience computed for a
/// visibility is that visibility, on exactly the admissible inputs.
pub proof fn lemma_audience_round_trips(
    visibility: Visibility,
    followers: Seq<char>,
    mentioned: Seq<Seq<char>>,
)
    ensures
        round_trip_admissible(visibility, followers, mentioned) <==> visibility_of(
            audience_of(visibility, followers, mentioned).0,
            audience_of(visibility, followers, mentioned).1,
        ) == visibility,
{
    let public = ACTIVITYSTREAMS_PUBLIC@;
    let (to, cc) = audience_of(visibility, followers, mentioned);
    let one = seq![followers];
    assert(any_public(one) <==> is_public(followers)) by {
        if is_public(followers) {
            assert(is_public(one[0]));
        }
    }
    assert(any_followers(one) <==> is_followers(followers)) by {
        if is_followers(followers) {
            assert(is_followers(one[0]));
        }
    }
    assert(!any_public(Seq::<Seq<char>>::empty()));
    assert(!any_followers(Seq::<Seq<char>>::empty()));
    match visibility {
        Visibility::Public => {
            assert(is_public(to[0]));
        },
        Visibility::Unlisted => {
            assert(is_public(cc[0]));
        },
        Visibility::Private => {},
        Visibility::Direct => {},
    }
}

/// The plain case of the round trip: a followers collection named as such
/// and mentions of individual actors.
pub proof fn lemma_plain_audience_round_trips(
    visibility: Visibility,
    followers: Seq<char>,
    mentioned: Seq<Seq<char>>,
)
    requires
        is_followers(followers),
        !any_public(mentioned),
        !any_followers(mentioned),
    ensures
        visibility_of(
            audience_of(visibility, followers, mentioned).0,
            audience_of(visibility, followers, mentioned).1,
        ) == visibility,
{
    reveal_strlit("https://www.w3.org/ns/activitystreams#Public");
    reveal_strlit("/followers");
    assert(!is_public(followers)) by {
        if is_public(followers) {
            let n = followers.len() as int;
            assert(followers.subrange(n - 10, n)[9] == followers[n - 1]);
            assert(FOLLOWERS_SUFFIX@[9] == 's');
            assert(ACTIVITYSTREAMS_PUBLIC@[n - 1] == 'c');
        }
    }
    lemma_audience_round_trips(visibility, followers, mentioned);
}

/// A post addressed to the public collection in `to` is public, whatever
/// `cc` holds; one that names it only in `cc` is unlisted; one that names it
/// nowhere but names a collection ending in `/followers` is for followers;
/// any other is direct.
pub proof fn lemma_visibility_by_audience(to: Seq<Seq<char>>, cc: Seq<Seq<char>>)
    ensures
        (exists|i: int| 0 <= i < to.len() && to[i] == ACTIVITYSTREAMS_PUBLIC@) ==> visibility_of(to, cc)
            == Visibility::Public,
        !(exists|i: int| 0 <= i < to.len() && to[i] == ACTIVITYSTREAMS_PUBLIC@)
            && (exists|i: int| 0 <= i < cc.len() && cc[i] == ACTIVITYSTREAMS_PUBLIC@) ==> visibility_of(
            to,
            cc,
        ) == Visibility::Unlisted,
        !(exists|i: int| 0 <= i < to.len() && to[i] == ACTIVITYSTREAMS_PUBLIC@)
            && !(exists|i: int| 0 <= i < cc.len() && cc[i] == ACTIVITYSTREAMS_PUBLIC@)
            && (exists|i: int| 0 <= i < to.len() + cc.len() && has_suffix(
            (to + cc)[i],
            "/followers"@,
        )) ==> visibility_of(to, cc) == Visibility::Private,
        !(exists|i: int| 0 <= i < to.len() + cc.len() && ((to + cc)[i] == ACTIVITYSTREAMS_PUBLIC@
            || has_suffix((to + cc)[i], "/followers"@))) ==> visibility_of(to, cc)
            == Visibility::Direct,
{
    reveal_strlit("/followers");
    assert(FOLLOWERS_SUFFIX@ =~= "/followers"@);
    if exists|i: int| 0 <= i < to.len() && to[i] == ACTIVITYSTREAMS_PUBLIC@ {
        let i = choose|i: int| 0 <= i < to.len() && to[i] == ACTIVITYSTREAMS_PUBLIC@;
        assert(is_public(to[i]));
    }
    if exists|i: int| 0 <= i < cc.len() && cc[i] == ACTIVITYSTREAMS_PUBLIC@ {
        let i = choose|i: int| 0 <= i < cc.len() && cc[i] == ACTIVITYSTREAMS_PUBLIC@;
        assert(is_public(cc[i]));
    }
    let all = to + cc;
    if exists|i: int| 0 <= i < all.len() && has_suffix(all[i], "/followers"@) {
        let i = choose|i: int| 0 <= i < all.len() && has_suffix(all[i], "/followers"@);
        if i < to.len() {
            assert(all[i] == to[i]);
            assert(is_followers(to[i]));
        } else {
            assert(all[i] == cc[i - to.len()]);
            assert(is_followers(cc[i - to.len()]));
        }
    }
    if any_public(to) {
        let i = choose|i: int| 0 <= i < to.len() && is_public(#[trigger] to[i]);
        assert(all[i] == to[i]);
    }
    if any_public(cc) {
        let i = choose|i: int| 0 <= i < cc.len() && is_public(#[trigger] cc[i]);
        assert(all[to.len() + i] == cc[i]);
    }
    if any_followers(to) {
        let i = choose|i: int| 0 <= i < to.len() && is_followers(#[trigger] to[i]);
        assert(all[i] == to[i]);
    }
    if any_followers(cc) {
        let i = choose|i: int| 0 <= i < cc.len() && is_followers(#[trigger] cc[i]);
        assert(all[to.len() + i] == cc[i]);
    }
}

/// The audience for each visibility: a public post goes to the public
/// collection with the followers collection and then every mention, in
/// order, in `cc`; an unlisted one to the followers collection with the
/// public collection and then every mention in `cc`; a followers-only one to
/// the followers collection with every mention in `cc`; a direct one to the
/// mentions alone.
pub proof fn lemma_audience_shapes(visibility: Visibility, followers: Seq<char>, mentioned: Seq<Seq<char>>)
    ensures
        visibility == Visibility::Public ==> {
            &&& audience_of(visibility, followers, mentioned).0 =~= seq![ACTIVITYSTREAMS_PUBLIC@]
            &&& audience_of(visibility, followers, mentioned).1.len() == mentioned.len() + 1
            &&& audience_of(visibility, followers, mentioned).1[0] == followers
            &&& forall|i: int|
                0 <= i < mentioned.len() ==> audience_of(visibility, followers, mentioned).1[i + 1]
                    == mentioned[i]
        },
        visibility == Visibility::Unlisted ==> {
            &&& audience_of(visibility, followers, mentioned).0 =~= seq![followers]
            &&& audience_of(visibility, followers, mentioned).1.len() == mentioned.len() + 1
            &&& audience_of(visibility, followers, mentioned).1[0] == ACTIVITYSTREAMS_PUBLIC@
            &&& forall|i: int|
                0 <= i < mentioned.len() ==> audience_of(visibility, followers, mentioned).1[i + 1]
                    == mentioned[i]
        },
        visibility == Visibility::Private ==> {
            &&& audience_of(visibility, followers, mentioned).0 =~= seq![followers]
            &&& audience_of(visibility, followers, mentioned).1 =~= mentioned
        },
        visibility == Visibility::Direct ==> {
            &&& audience_of(visibility, followers, mentioned).0 =~= mentioned
            &&& audience_of(visibility, followers, mentioned).1.len() == 0
        },
{
}

/// Every mentioned recipient is addressed, whatever the visibility.
pub proof fn lemma_mentions_addressed(visibility: Visibility, followers: Seq<char>, mentioned: Seq<Seq<char>>)
    ensures
        forall|i: int|
            0 <= i < mentioned.len() ==> audience_of(visibility, followers, mentioned).0.contains(
                #[trigger] mentioned[i],
            ) || audience_of(visibility, followers, mentioned).1.contains(mentioned[i]),
{
    let (to, cc) = audience_of(visibility, followers, mentioned);
    assert forall|i: int| 0 <= i < mentioned.len() implies to.contains(#[trigger] mentioned[i]) || cc.contains(
        mentioned[i],
    ) by {
        match visibility {
            Visibility::Public => {
                assert(cc[i + 1] == mentioned[i]);
            },
            Visibility::Unlisted => {
                assert(cc[i + 1] == mentioned[i]);
            },
            Visibility::Private => {
                assert(cc[i] == mentioned[i]);
            },
            Visibility::Direct => {
                assert(to[i] == mentioned[i]);
            },
        }
    }
}

} // verus!
