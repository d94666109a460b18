//! Portable core state and decision logic.
//!
//! The core takes inputs from a runtime, updates its in-memory state and
//! returns the actions the runtime should perform later. It performs no I/O,
//! reads no clock and generates no identifiers: identifiers and timestamps are
//! inputs.

use vstd::prelude::*;

use crate::vocab::{
    has_default_context, Accept, Actor, Create, Follow, Iri, Note, Reference,
};

verus! {

/// The identifier an actor reference points at, whether it holds the
/// identifier or embeds the actor.
pub open spec fn actor_ref_iri(reference: Reference<Actor>) -> Seq<char> {
    match reference {
        Reference::Id(id) => id@,
        Reference::Object(actor) => actor.id@,
    }
}

/// Objects whose identifier can be read.
trait HasId {
    spec fn id_of(&self) -> Iri;

    fn id(&self) -> (r: &Iri)
        ensures
            *r == self.id_of(),
    ;
}

impl HasId for Actor {
    spec fn id_of(&self) -> Iri {
        self.id
    }

    fn id(&self) -> (r: &Iri) {
        &self.id
    }
}

fn reference_id<T: HasId>(reference: &Reference<T>) -> (r: Option<&Iri>)
    ensures
        r matches Some(id) && *id == match reference {
            Reference::Id(id) => *id,
            Reference::Object(object) => object.id_of(),
        },
{
    match reference {
        Reference::Id(id) => Some(id),
        Reference::Object(object) => Some(object.id()),
    }
}

/// Portable core state and decision logic.
#[derive(Debug)]
pub struct FederCore {
    state: FederState,
}

/// `post` is `pre` after handling `input`.
pub open spec fn input_handled(pre: FederState, post: FederState, input: Input) -> bool {
    match input {
        Input::ReceivedFollow(follow) => follow_recorded(pre, post, follow),
        Input::UserCreateNote(note) => note_recorded(pre, post, note),
    }
}

impl FederCore {
    /// The core's state.
    pub closed spec fn state_spec(&self) -> FederState {
        self.state
    }

    /// A core with a fresh state for the configured local actor.
    pub fn new(config: FederConfig) -> (r: Self)
        ensures
            r.state_spec().is_fresh_for(config),
            r.state_spec().wf(),
    {
        FederCore { state: FederState::new(config) }
    }

    /// The core's state.
    pub fn state(&self) -> (r: &FederState)
        ensures
            *r == self.state_spec(),
    {
        &self.state
    }

    /// Handle one core input and return runtime actions to perform later.
    ///
    /// This performs no I/O; no input currently asks for an action.
    pub fn handle(&mut self, input: Input) -> (r: HandleResult)
        ensures
            input_handled(old(self).state_spec(), final(self).state_spec(), input),
            old(self).state_spec().wf() ==> final(self).state_spec().wf(),
            r.actions@.len() == 0,
    {
        match input {
            Input::ReceivedFollow(follow) => {
                self.state.record_follow(follow);
            },
            Input::UserCreateNote(input) => {
                self.state.record_created_note(input);
            },
        }
        HandleResult { actions: Vec::new() }
    }
}

/// Runtime-provided configuration for portable core state.
#[derive(Clone, Debug, PartialEq, Eq)]
pub struct FederConfig {
    pub local_actor: Actor,
}

impl FederConfig {
    /// A configuration for the given local actor.
    pub fn new(local_actor: Actor) -> (r: Self)
        ensures
            r.local_actor == local_actor,
    {
        FederConfig { local_actor }
    }
}

/// A follower relationship: `follower` follows `following`.
#[derive(Clone, Debug, PartialEq, Eq)]
pub struct Follower {
    pub follower: Iri,
    pub following: Iri,
}

impl View for Follower {
    type V = (Seq<char>, Seq<char>);

    open spec fn view(&self) -> (Seq<char>, Seq<char>) {
        (self.follower@, self.following@)
    }
}

/// A known actor inbox for future delivery.
///
/// Recorded only when an incoming object embeds enough actor data to expose
/// an inbox. It does not imply every follower has been resolved.
#[derive(Clone, Debug, PartialEq, Eq)]
pub struct DeliveryTarget {
    pub actor: Iri,
    pub inbox: Iri,
}

impl View for DeliveryTarget {
    type V = (Seq<char>, Seq<char>);

    open spec fn view(&self) -> (Seq<char>, Seq<char>) {
        (self.actor@, self.inbox@)
    }
}

/// Something entering the portable core from a runtime.
#[derive(Clone, Debug, PartialEq, Eq)]
#[non_exhaustive]
pub enum Input {
    ReceivedFollow(Follow),
    UserCreateNote(UserCreateNote),
}

/// Runtime-provided data for creating a local note.
///
/// Identifiers and timestamps are inputs so the core does not depend on
/// clocks, randomness, or platform-specific identifier generation.
#[derive(Clone, Debug, PartialEq, Eq)]
pub struct UserCreateNote {
    pub note_id: Iri,
    pub create_id: Iri,
    pub actor: Reference<Actor>,
    pub content: String,
    pub published: Option<String>,
}

/// Something the runtime should perform after core handling.
#[derive(Clone, Debug, PartialEq, Eq)]
#[non_exhaustive]
pub enum Action {
    StoreFollower(StoreFollower),
    StoreObject(StoreObject),
    SendActivity(SendActivity),
}

#[derive(Clone, Debug, PartialEq, Eq)]
pub struct StoreFollower {
    pub follower: Reference<Actor>,
    pub following: Reference<Actor>,
}

#[derive(Clone, Debug, PartialEq, Eq)]
pub struct StoreObject {
    pub object: Object,
}

#[derive(Clone, Debug, PartialEq, Eq)]
pub struct SendActivity {
    pub activity: Activity,
    pub inbox: Iri,
}

/// An activity recorded by the core.
#[derive(Clone, Debug, PartialEq, Eq)]
#[non_exhaustive]
pub enum Activity {
    Accept(Accept),
    CreateNote(Create<Note>),
}

/// An object recorded by the core.
#[derive(Clone, Debug, PartialEq, Eq)]
#[non_exhaustive]
pub enum Object {
    Note(Note),
}

/// The actions produced by handling one input.
#[derive(Clone, Debug, Default, PartialEq, Eq)]
pub struct HandleResult {
    pub actions: Vec<Action>,
}

impl HandleResult {
    /// A result carrying the given actions.
    pub fn new(actions: Vec<Action>) -> (r: Self)
        ensures
            r.actions == actions,
    {
        HandleResult { actions }
    }

    /// Whether there is no action to perform.
    pub fn is_empty(&self) -> (r: bool)
        ensures
            r == (self.actions@.len() == 0),
    {
        self.actions.is_empty()
    }
}

/// Some relationship of `pairs` has `actor` as its follower.
pub open spec fn has_follower(pairs: Seq<(Seq<char>, Seq<char>)>, actor: Seq<char>) -> bool {
    exists|j: int| 0 <= j < pairs.len() && (#[trigger] pairs[j]).0 == actor
}

/// The pairs of `pairs`, with `pair` added at the end unless already there.
pub open spec fn with_pair(
    pairs: Seq<(Seq<char>, Seq<char>)>,
    pair: (Seq<char>, Seq<char>),
) -> Seq<(Seq<char>, Seq<char>)> {
    if pairs.contains(pair) {
        pairs
    } else {
        pairs.push(pair)
    }
}

/// `note` is the note a local actor authors with the given identifier,
/// author, content and publication time, and nothing else set.
pub open spec fn is_authored_note(
    note: Note,
    id: Iri,
    author: Iri,
    content: String,
    published: Option<String>,
) -> bool {
    &&& has_default_context(note.context)
    &&& note.id == id
    &&& note.attributed_to == Some(Reference::<Actor>::Id(author))
    &&& note.summary is None
    &&& note.content == Some(content)
    &&& note.sensitive is None
    &&& note.in_reply_to is None
    &&& note.url is None
    &&& note.to@.len() == 0
    &&& note.cc@.len() == 0
    &&& note.published == published
}

/// The text of an optional identifier.
pub open spec fn opt_iri(value: Option<Iri>) -> Option<Seq<char>> {
    match value {
        Some(i) => Some(i@),
        None => None,
    }
}

/// Two notes hold the same values: the `@context` and the audiences compared
/// by their text, every other field by value.
pub open spec fn notes_agree(a: Note, b: Note) -> bool {
    &&& opt_iri(a.context) == opt_iri(b.context)
    &&& a.kind == b.kind
    &&& a.id == b.id
    &&& a.attributed_to == b.attributed_to
    &&& a.summary == b.summary
    &&& a.content == b.content
    &&& a.sensitive == b.sensitive
    &&& a.in_reply_to == b.in_reply_to
    &&& a.url == b.url
    &&& a.to@ == b.to@
    &&& a.cc@ == b.cc@
    &&& a.published == b.published
}

/// `activity` is the `Create` by `author` of the note `object`: its actor is
/// `author` by identifier, it embeds that very note, and the note is
/// attributed to the same actor.
pub open spec fn creates_object(object: Object, activity: Activity, author: Iri) -> bool {
    match object {
        Object::Note(note) => {
            &&& activity matches Activity::CreateNote(create)
            &&& create.actor == Reference::<Actor>::Id(author)
            &&& create.object matches Reference::Object(embedded) && notes_agree(*embedded, note)
            &&& note.attributed_to == Some(create.actor)
        },
    }
}

/// `activity` creates the note authored from `input` by the local actor
/// `author`.
pub open spec fn is_create_of_note(activity: Activity, input: UserCreateNote, author: Iri) -> bool {
    match activity {
        Activity::CreateNote(create) => {
            &&& has_default_context(create.context)
            &&& create.id == input.create_id
            &&& create.actor == Reference::<Actor>::Id(author)
            &&& create.to@.len() == 0
            &&& create.cc@.len() == 0
            &&& create.object matches Reference::Object(n) && is_authored_note(
                *n,
                input.note_id,
                author,
                input.content,
                input.published,
            )
        },
        Activity::Accept(_) => false,
    }
}

/// Handling `follow` in `s` has nothing to record: the follow is of
/// another actor, or its relationship (and, for an embedded follower, its
/// delivery target) is recorded already.
pub open spec fn follow_already_recorded(s: FederState, follow: Follow) -> bool {
    ||| actor_ref_iri(follow.object) != s.local_id()
    ||| {
        &&& s.follower_pairs().contains((actor_ref_iri(follow.actor), s.local_id()))
        &&& match follow.actor {
            Reference::Object(actor) => s.target_pairs().contains((actor.id@, actor.inbox@)),
            Reference::Id(_) => true,
        }
    }
}

/// `post` is `pre` after handling the received `follow`.
///
/// A follow of the local actor records the relationship (unless already
/// recorded) and, when the follower is embedded, its inbox as a delivery
/// target (unless already recorded). A follow of any other actor changes
/// nothing; a follow with nothing to record leaves the state as it is.
pub open spec fn follow_recorded(pre: FederState, post: FederState, follow: Follow) -> bool {
    &&& follow_already_recorded(pre, follow) ==> post == pre
    &&& post.local_actor_spec() == pre.local_actor_spec()
    &&& post.objects_spec() == pre.objects_spec()
    &&& post.activities_spec() == pre.activities_spec()
    &&& if actor_ref_iri(follow.object) == pre.local_id() {
        &&& post.follower_pairs() == with_pair(
            pre.follower_pairs(),
            (actor_ref_iri(follow.actor), pre.local_id()),
        )
        &&& post.target_pairs() == match follow.actor {
            Reference::Object(actor) => with_pair(pre.target_pairs(), (actor.id@, actor.inbox@)),
            Reference::Id(_) => pre.target_pairs(),
        }
    } else {
        &&& post.followers_spec() == pre.followers_spec()
        &&& post.delivery_targets_spec() == pre.delivery_targets_spec()
    }
}

/// `post` is `pre` after the user asked to create the note `input`.
///
/// A note by the local actor is recorded, attributed to the local actor's
/// identifier, together with the `Create` activity that embeds it. A note by
/// any other actor changes nothing.
pub open spec fn note_recorded(pre: FederState, post: FederState, input: UserCreateNote) -> bool {
    &&& post.local_actor_spec() == pre.local_actor_spec()
    &&& post.followers_spec() == pre.followers_spec()
    &&& post.delivery_targets_spec() == pre.delivery_targets_spec()
    &&& if actor_ref_iri(input.actor) == pre.local_id() {
        &&& post.objects_spec().len() == pre.objects_spec().len() + 1
        &&& post.objects_spec().drop_last() == pre.objects_spec()
        &&& post.objects_spec().last() matches Object::Note(note) && is_authored_note(
            note,
            input.note_id,
            pre.local_actor_spec().id,
            input.content,
            input.published,
        )
        &&& post.activities_spec().len() == pre.activities_spec().len() + 1
        &&& post.activities_spec().drop_last() == pre.activities_spec()
        &&& is_create_of_note(post.activities_spec().last(), input, pre.local_actor_spec().id)
    } else {
        &&& post.objects_spec() == pre.objects_spec()
        &&& post.activities_spec() == pre.activities_spec()
    }
}

proof fn lemma_with_pair_no_duplicates(
    pairs: Seq<(Seq<char>, Seq<char>)>,
    pair: (Seq<char>, Seq<char>),
)
    requires
        pairs.no_duplicates(),
    ensures
        with_pair(pairs, pair).no_duplicates(),
        with_pair(pairs, pair).contains(pair),
        forall|i: int| 0 <= i < pairs.len() ==> with_pair(pairs, pair)[i] == pairs[i],
        with_pair(pairs, pair).len() >= pairs.len(),
        forall|i: int|
            0 <= i < with_pair(pairs, pair).len() ==> (#[trigger] with_pair(pairs, pair)[i] == pair
                || (i < pairs.len() && with_pair(pairs, pair)[i] == pairs[i])),
{
    if !pairs.contains(pair) {
        let post = pairs.push(pair);
        assert(post[pairs.len() as int] == pair);
        assert forall|i: int, j: int| 0 <= i < post.len() && 0 <= j < post.len() && i != j implies post[i]
            != post[j] by {
            if i == pairs.len() as int && j < pairs.len() {
                assert(pairs[j] == post[j]);
            }
            if j == pairs.len() as int && i < pairs.len() {
                assert(pairs[i] == post[i]);
            }
        }
    }
}

/// Handling a follow keeps every property of [`FederState::wf`].
pub proof fn lemma_follow_preserves_wf(pre: FederState, post: FederState, follow: Follow)
    requires
        pre.wf(),
        follow_recorded(pre, post, follow),
    ensures
        post.wf(),
{
    let local = pre.local_id();
    assert(post.local_id() == local);
    if actor_ref_iri(follow.object) == local {
        let fp = pre.follower_pairs();
        let rel = (actor_ref_iri(follow.actor), local);
        lemma_with_pair_no_duplicates(fp, rel);
        let pfp = post.follower_pairs();
        assert forall|i: int| 0 <= i < pfp.len() implies (#[trigger] pfp[i]).1 == local by {
            if pfp[i] != rel {
                assert(pfp[i] == fp[i]);
            }
        }
        let tp = pre.target_pairs();
        let ptp = post.target_pairs();
        let w = choose|k: int| 0 <= k < pfp.len() && pfp[k] == rel;
        match follow.actor {
            Reference::Object(actor) => {
                let target = (actor.id@, actor.inbox@);
                lemma_with_pair_no_duplicates(tp, target);
                assert forall|i: int| 0 <= i < ptp.len() implies has_follower(pfp, (#[trigger] ptp[i]).0) by {
                    if ptp[i] == target {
                        assert(pfp[w].0 == ptp[i].0);
                    } else {
                        assert(ptp[i] == tp[i]);
                        let k = choose|k: int| 0 <= k < fp.len() && (#[trigger] fp[k]).0 == tp[i].0;
                        assert(pfp[k] == fp[k]);
                    }
                }
            },
            Reference::Id(_) => {
                assert forall|i: int| 0 <= i < ptp.len() implies has_follower(pfp, (#[trigger] ptp[i]).0) by {
                    let k = choose|k: int| 0 <= k < fp.len() && (#[trigger] fp[k]).0 == tp[i].0;
                    assert(pfp[k] == fp[k]);
                }
            },
        }
    } else {
        assert(post.follower_pairs() == pre.follower_pairs());
        assert(post.target_pairs() == pre.target_pairs());
    }
}

/// Creating a note keeps every property of [`FederState::wf`].
pub proof fn lemma_note_preserves_wf(pre: FederState, post: FederState, input: UserCreateNote)
    requires
        pre.wf(),
        note_recorded(pre, post, input),
    ensures
        post.wf(),
{
    assert(post.follower_pairs() == pre.follower_pairs());
    assert(post.target_pairs() == pre.target_pairs());
    assert(post.local_id() == pre.local_id());
    assert(post.follower_pairs().no_duplicates());
    assert(post.target_pairs().no_duplicates());
    assert(post.objects_spec().len() == post.activities_spec().len());
    let fp = post.follower_pairs();
    let tp = post.target_pairs();
    assert forall|i: int| 0 <= i < fp.len() implies (#[trigger] fp[i]).1 == post.local_id() by {
        assert(fp[i] == pre.follower_pairs()[i]);
    }
    assert forall|i: int| 0 <= i < tp.len() implies has_follower(fp, (#[trigger] tp[i]).0) by {
        assert(tp[i] == pre.target_pairs()[i]);
        let k = choose|k: int|
            0 <= k < pre.follower_pairs().len() && (#[trigger] pre.follower_pairs()[k]).0 == pre.target_pairs()[i].0;
        assert(fp[k] == pre.follower_pairs()[k]);
    }
    let objects = post.objects_spec();
    let activities = post.activities_spec();
    let author = post.local_actor_spec().id;
    assert forall|i: int| 0 <= i < objects.len() implies creates_object(
        #[trigger] objects[i],
        activities[i],
        author,
    ) by {
        if i < pre.objects_spec().len() {
            assert(objects[i] == pre.objects_spec()[i]);
            assert(activities[i] == pre.activities_spec()[i]);
        } else if actor_ref_iri(input.actor) == pre.local_id() {
            let Object::Note(note) = objects[i];
            if let Activity::CreateNote(create) = activities[i] {
                if let Reference::Object(embedded) = create.object {
                    assert(embedded.to@ =~= note.to@);
                    assert(embedded.cc@ =~= note.cc@);
                }
            }
        }
    }
}

/// Handling the same follow twice leaves the state exactly as handling it
/// once did.
pub proof fn lemma_follow_idempotent(
    s0: FederState,
    s1: FederState,
    s2: FederState,
    follow: Follow,
)
    requires
        input_handled(s0, s1, Input::ReceivedFollow(follow)),
        input_handled(s1, s2, Input::ReceivedFollow(follow)),
    ensures
        s2 == s1,
{
    if actor_ref_iri(follow.object) == s0.local_id() {
        let rel = (actor_ref_iri(follow.actor), s0.local_id());
        assert(s1.follower_pairs().contains(rel)) by {
            if !s0.follower_pairs().contains(rel) {
                assert(s1.follower_pairs()[s0.follower_pairs().len() as int] == rel);
            }
        }
        match follow.actor {
            Reference::Object(actor) => {
                let target = (actor.id@, actor.inbox@);
                assert(s1.target_pairs().contains(target)) by {
                    if !s0.target_pairs().contains(target) {
                        assert(s1.target_pairs()[s0.target_pairs().len() as int] == target);
                    }
                }
            },
            Reference::Id(_) => {},
        }
    }
    assert(follow_already_recorded(s1, follow));
}

/// `input` is a follow of the local actor `local` that embeds the actor
/// with the identifier and inbox of `target`.
pub open spec fn embeds_target(input: Input, local: Seq<char>, target: (Seq<char>, Seq<char>)) -> bool {
    &&& input matches Input::ReceivedFollow(follow)
    &&& actor_ref_iri(follow.object) == local
    &&& follow.actor matches Reference::Object(actor)
    &&& actor.id@ == target.0
    &&& actor.inbox@ == target.1
}

/// Every delivery target of `s` is the embedded actor of some follow of
/// `local` among `inputs`.
pub open spec fn targets_traced(s: FederState, inputs: Seq<Input>, local: Seq<char>) -> bool {
    forall|j: int|
        0 <= j < s.target_pairs().len() ==> source_among(inputs, local, #[trigger] s.target_pairs()[j])
}

/// Some input of `inputs` is a follow of `local` that embeds the actor with
/// the identifier and inbox of `target`.
pub open spec fn source_among(inputs: Seq<Input>, local: Seq<char>, target: (Seq<char>, Seq<char>)) -> bool {
    exists|i: int| 0 <= i < inputs.len() && #[trigger] embeds_target(inputs[i], local, target)
}

/// `states` is a run of the core over `inputs`: each state is the one before
/// it after handling the input at that position.
pub open spec fn is_run(states: Seq<FederState>, inputs: Seq<Input>) -> bool {
    &&& states.len() == inputs.len() + 1
    &&& forall|i: int|
        #![trigger inputs[i]]
        0 <= i < inputs.len() ==> input_handled(states[i], states[i + 1], inputs[i])
}

/// Along a run, the local actor stays the same.
proof fn lemma_run_keeps_local_actor(states: Seq<FederState>, inputs: Seq<Input>)
    requires
        is_run(states, inputs),
    ensures
        forall|k: int| 0 <= k < states.len() ==> #[trigger] states[k].local_actor_spec() == states[0].local_actor_spec(),
    decreases inputs.len(),
{
    if inputs.len() > 0 {
        let n = inputs.len() as int;
        let prev_states = states.drop_last();
        let prev_inputs = inputs.drop_last();
        assert forall|i: int| #![trigger prev_inputs[i]] 0 <= i < prev_inputs.len() implies input_handled(
            prev_states[i],
            prev_states[i + 1],
            prev_inputs[i],
        ) by {
            assert(inputs[i] == prev_inputs[i]);
        }
        lemma_run_keeps_local_actor(prev_states, prev_inputs);
        assert(input_handled(states[n - 1], states[n], inputs[n - 1]));
        assert forall|k: int| 0 <= k < states.len() implies #[trigger] states[k].local_actor_spec() == states[0].local_actor_spec() by {
            if k < n {
                assert(states[k] == prev_states[k]);
            } else {
                assert(states[n - 1] == prev_states[n - 1]);
            }
        }
    }
}

/// The handled follow that the delivery target at position `j` of the last
/// state of a run comes from.
proof fn lemma_target_source(states: Seq<FederState>, inputs: Seq<Input>, j: int) -> (i: int)
    requires
        is_run(states, inputs),
        states[0].delivery_targets_spec().len() == 0,
        0 <= j < states.last().target_pairs().len(),
    ensures
        0 <= i < inputs.len(),
        embeds_target(inputs[i], states[0].local_id(), states.last().target_pairs()[j]),
    decreases inputs.len(),
{
    let n = inputs.len() as int;
    if n == 0 {
        assert(states.last() == states[0]);
        assert(states[0].target_pairs().len() == 0);
        0
    } else {
        let prev_states = states.drop_last();
        let prev_inputs = inputs.drop_last();
        assert forall|i: int| #![trigger prev_inputs[i]] 0 <= i < prev_inputs.len() implies input_handled(
            prev_states[i],
            prev_states[i + 1],
            prev_inputs[i],
        ) by {
            assert(inputs[i] == prev_inputs[i]);
        }
        lemma_run_keeps_local_actor(states, inputs);
        let pre = states[n - 1];
        let post = states[n];
        let input = inputs[n - 1];
        assert(input_handled(pre, post, input));
        assert(prev_states.last() == pre);
        let local = states[0].local_id();
        assert(pre.local_actor_spec() == states[0].local_actor_spec());
        let tp = pre.target_pairs();
        let ptp = post.target_pairs();
        if j < tp.len() && ptp[j] == tp[j] {
            let i = lemma_target_source(prev_states, prev_inputs, j);
            assert(inputs[i] == prev_inputs[i]);
            i
        } else {
            match input {
                Input::ReceivedFollow(follow) => {
                    match follow.actor {
                        Reference::Object(actor) => {
                            let target = (actor.id@, actor.inbox@);
                            if !tp.contains(target) {
                                assert(ptp[j] == target);
                            }
                        },
                        Reference::Id(_) => {},
                    }
                },
                Input::UserCreateNote(_) => {},
            }
            n - 1
        }
    }
}

/// Every delivery target comes from a handled follow.
///
/// In a run that starts without delivery targets, each delivery target of
/// the last state is the embedded actor's identifier and inbox of some
/// handled follow of the local actor; a follow that names its actor by
/// identifier alone never yields one. The local actor stays the same.
pub proof fn lemma_targets_come_from_embedded_follows(states: Seq<FederState>, inputs: Seq<Input>)
    requires
        is_run(states, inputs),
        states[0].delivery_targets_spec().len() == 0,
    ensures
        states.last().local_actor_spec() == states[0].local_actor_spec(),
        targets_traced(states.last(), inputs, states[0].local_id()),
{
    lemma_run_keeps_local_actor(states, inputs);
    let last = states.last();
    let local = states[0].local_id();
    assert forall|j: int| 0 <= j < last.target_pairs().len() implies source_among(
        inputs,
        local,
        #[trigger] last.target_pairs()[j],
    ) by {
        let i = lemma_target_source(states, inputs, j);
        assert(embeds_target(inputs[i], local, last.target_pairs()[j]));
    }
}

/// Fresh states for one configuration agree: a new core's state holds
/// exactly what a new state holds.
pub proof fn lemma_fresh_states_agree(config: FederConfig, a: FederState, b: FederState)
    requires
        a.is_fresh_for(config),
        b.is_fresh_for(config),
    ensures
        a.agrees_with(b),
{
}

fn contains_follower(list: &Vec<Follower>, item: &Follower) -> (r: bool)
    ensures
        r == list@.map_values(|f: Follower| f@).contains(item@),
{
    let ghost pairs = list@.map_values(|f: Follower| f@);
    let mut i: usize = 0;
    while i < list.len()
        invariant
            i <= list@.len(),
            pairs == list@.map_values(|f: Follower| f@),
            forall|j: int| 0 <= j < i ==> pairs[j] != item@,
        decreases list@.len() - i,
    {
        if list[i].follower.same_as(&item.follower) && list[i].following.same_as(&item.following) {
            assert(pairs[i as int] == item@);
            return true;
        }
        i = i + 1;
    }
    false
}

fn contains_target(list: &Vec<DeliveryTarget>, item: &DeliveryTarget) -> (r: bool)
    ensures
        r == list@.map_values(|t: DeliveryTarget| t@).contains(item@),
{
    let ghost pairs = list@.map_values(|t: DeliveryTarget| t@);
    let mut i: usize = 0;
    while i < list.len()
        invariant
            i <= list@.len(),
            pairs == list@.map_values(|t: DeliveryTarget| t@),
            forall|j: int| 0 <= j < i ==> pairs[j] != item@,
        decreases list@.len() - i,
    {
        if list[i].actor.same_as(&item.actor) && list[i].inbox.same_as(&item.inbox) {
            assert(pairs[i as int] == item@);
            return true;
        }
        i = i + 1;
    }
    false
}

/// Builds the note that the local actor `author` creates from the given
/// values.
fn authored_note(id: Iri, author: Iri, content: String, published: Option<String>) -> (r: Note)
    ensures
        is_authored_note(r, id, author, content, published),
{
    let mut note = Note::new(id);
    note.attributed_to = Some(Reference::id(author));
    note.content = Some(content);
    note.published = published;
    note
}

/// In-memory state used by the core flows.
#[derive(Clone, Debug, PartialEq, Eq)]
pub struct FederState {
    local_actor: Actor,
    followers: Vec<Follower>,
    delivery_targets: Vec<DeliveryTarget>,
    objects: Vec<Object>,
    activities: Vec<Activity>,
}

impl FederState {
    /// The local actor.
    pub closed spec fn local_actor_spec(&self) -> Actor {
        self.local_actor
    }

    /// The recorded follower relationships, in order of recording.
    pub closed spec fn followers_spec(&self) -> Seq<Follower> {
        self.followers@
    }

    /// The recorded delivery targets, in order of recording.
    pub closed spec fn delivery_targets_spec(&self) -> Seq<DeliveryTarget> {
        self.delivery_targets@
    }

    /// The recorded objects, in order of recording.
    pub closed spec fn objects_spec(&self) -> Seq<Object> {
        self.objects@
    }

    /// The recorded activities, in order of recording.
    pub closed spec fn activities_spec(&self) -> Seq<Activity> {
        self.activities@
    }

    /// The follower relationships as `(follower, following)` identifiers.
    pub open spec fn follower_pairs(&self) -> Seq<(Seq<char>, Seq<char>)> {
        self.followers_spec().map_values(|f: Follower| f@)
    }

    /// The delivery targets as `(actor, inbox)` identifiers.
    pub open spec fn target_pairs(&self) -> Seq<(Seq<char>, Seq<char>)> {
        self.delivery_targets_spec().map_values(|t: DeliveryTarget| t@)
    }

    /// The identifier of the local actor.
    pub open spec fn local_id(&self) -> Seq<char> {
        self.local_actor_spec().id@
    }

    /// `self` is the state a core starts from for `config`: the configured
    /// local actor and nothing recorded.
    pub open spec fn is_fresh_for(&self, config: FederConfig) -> bool {
        &&& self.local_actor_spec() == config.local_actor
        &&& self.followers_spec() == Seq::<Follower>::empty()
        &&& self.delivery_targets_spec() == Seq::<DeliveryTarget>::empty()
        &&& self.objects_spec() == Seq::<Object>::empty()
        &&& self.activities_spec() == Seq::<Activity>::empty()
    }

    /// Two states hold the same local actor and the same recorded followers,
    /// delivery targets, objects and activities, in the same order.
    pub open spec fn agrees_with(&self, other: FederState) -> bool {
        &&& self.local_actor_spec() == other.local_actor_spec()
        &&& self.followers_spec() == other.followers_spec()
        &&& self.delivery_targets_spec() == other.delivery_targets_spec()
        &&& self.objects_spec() == other.objects_spec()
        &&& self.activities_spec() == other.activities_spec()
    }

    /// What every state the core reaches satisfies: no relationship or
    /// target is recorded twice, every relationship follows the local actor,
    /// every delivery target belongs to a recorded follower, and every
    /// recorded object is the note that the activity at the same position
    /// creates, by the local actor.
    pub open spec fn wf(&self) -> bool {
        &&& self.follower_pairs().no_duplicates()
        &&& self.target_pairs().no_duplicates()
        &&& forall|i: int|
            0 <= i < self.follower_pairs().len() ==> (#[trigger] self.follower_pairs()[i]).1
                == self.local_id()
        &&& forall|i: int|
            0 <= i < self.target_pairs().len() ==> has_follower(
                self.follower_pairs(),
                (#[trigger] self.target_pairs()[i]).0,
            )
        &&& self.objects_spec().len() == self.activities_spec().len()
        &&& forall|i: int|
            0 <= i < self.objects_spec().len() ==> creates_object(
                #[trigger] self.objects_spec()[i],
                self.activities_spec()[i],
                self.local_actor_spec().id,
            )
    }

    /// A fresh state for the configured local actor.
    pub fn new(config: FederConfig) -> (r: Self)
        ensures
            r.is_fresh_for(config),
            r.wf(),
    {
        let r = FederState {
            local_actor: config.local_actor,
            followers: Vec::new(),
            delivery_targets: Vec::new(),
            objects: Vec::new(),
            activities: Vec::new(),
        };
        assert(r.follower_pairs() =~= Seq::empty());
        assert(r.target_pairs() =~= Seq::empty());
        assert(r.followers_spec() =~= Seq::empty());
        assert(r.delivery_targets_spec() =~= Seq::empty());
        assert(r.objects_spec() =~= Seq::empty());
        assert(r.activities_spec() =~= Seq::empty());
        r
    }

    fn record_follow(&mut self, follow: Follow)
        ensures
            follow_recorded(*old(self), *final(self), follow),
            old(self).wf() ==> final(self).wf(),
    {
        let ghost pre = *self;
        let following = match reference_id(&follow.object) {
            Some(id) => id.duplicate(),
            None => {
                return ;
            },
        };
        if !following.same_as(&self.local_actor.id) {
            return ;
        }
        let follower = match reference_id(&follow.actor) {
            Some(id) => id.duplicate(),
            None => {
                return ;
            },
        };
        let relation = Follower { follower: follower.duplicate(), following };
        if !contains_follower(&self.followers, &relation) {
            self.followers.push(relation);
            assert(self.follower_pairs() =~= pre.follower_pairs().push(relation@));
        }
        assert(self.follower_pairs() == with_pair(
            pre.follower_pairs(),
            (actor_ref_iri(follow.actor), pre.local_id()),
        ));
        let ghost follow_view = follow;
        if let Reference::Object(actor) = follow.actor {
            let target = DeliveryTarget { actor: follower, inbox: actor.inbox };
            if !contains_target(&self.delivery_targets, &target) {
                self.delivery_targets.push(target);
                assert(self.target_pairs() =~= pre.target_pairs().push(target@));
            }
        }
        proof {
            if pre.wf() {
                lemma_follow_preserves_wf(pre, *self, follow_view);
            }
        }
    }

    fn record_created_note(&mut self, input: UserCreateNote)
        ensures
            note_recorded(*old(self), *final(self), input),
            old(self).wf() ==> final(self).wf(),
    {
        let ghost pre = *self;
        let actor = match reference_id(&input.actor) {
            Some(id) => id,
            None => {
                return ;
            },
        };
        if !actor.same_as(&self.local_actor.id) {
            return ;
        }
        let UserCreateNote { note_id, create_id, actor: _, content, published } = input;
        let embedded_published = match &published {
            Some(p) => Some(p.clone()),
            None => None,
        };
        let embedded = authored_note(
            note_id.duplicate(),
            self.local_actor.id.duplicate(),
            content.clone(),
            embedded_published,
        );
        let note = authored_note(note_id, self.local_actor.id.duplicate(), content, published);
        let create = Create::new(
            create_id,
            Reference::id(self.local_actor.id.duplicate()),
            Reference::object(embedded),
        );
        self.objects.push(Object::Note(note));
        self.activities.push(Activity::CreateNote(create));
        assert(self.objects_spec().drop_last() =~= pre.objects_spec());
        assert(self.activities_spec().drop_last() =~= pre.activities_spec());
        proof {
            if pre.wf() {
                lemma_note_preserves_wf(pre, *self, input);
            }
        }
    }

    /// The local actor.
    pub fn local_actor(&self) -> (r: &Actor)
        ensures
            *r == self.local_actor_spec(),
    {
        &self.local_actor
    }

    /// The recorded follower relationships.
    pub fn followers(&self) -> (r: &[Follower])
        ensures
            r@ == self.followers_spec(),
    {
        self.followers.as_slice()
    }

    /// Delivery targets known from embedded actor data.
    ///
    /// Identifier-only followers are tracked in `followers`, but they do not
    /// produce a delivery target until a runtime or later core flow resolves
    /// actor data.
    pub fn delivery_targets(&self) -> (r: &[DeliveryTarget])
        ensures
            r@ == self.delivery_targets_spec(),
    {
        self.delivery_targets.as_slice()
    }

    /// The recorded objects.
    pub fn objects(&self) -> (r: &[Object])
        ensures
            r@ == self.objects_spec(),
    {
        self.objects.as_slice()
    }

    /// The recorded activities.
    pub fn activities(&self) -> (r: &[Activity])
        ensures
            r@ == self.activities_spec(),
    {
        self.activities.as_slice()
    }
}

} // verus!
