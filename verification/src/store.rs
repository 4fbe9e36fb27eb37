//! The versioned knowledge graph: append-only version chains with one
//! current version each.
//!
//! Every versioned object (a decision or a truth object) owns a chain of
//! versions numbered 1, 2, 3, ... without gaps. Exactly one version of a
//! chain is current, the newest, and each newer version points back at the
//! one it replaced. A write either applies as a whole or leaves the store as
//! it was.

use crate::domain::{clone_ids, Confidence, Routing};
use crate::string_map::StringMap;
use crate::text::{clone_strings, joined, decimal_i64, decimal_text, views};
use vstd::prelude::*;

verus! {

/// The two kinds of versioned object.
#[derive(Debug, Clone, Copy, PartialEq, Eq, Structural)]
pub enum ObjectKind {
    Decision,
    TruthObject,
}

/// Why a write was refused.
#[derive(Debug, Clone, Copy, PartialEq, Eq, Structural)]
pub enum StoreError {
    /// The version offered is not the next one of its chain.
    VersionConflict { expected: i64 },
    /// The chain holds as many versions as can be numbered.
    ChainFull,
}

/// Identifiers of the graph nodes and edges that one write touched.
#[derive(Debug, PartialEq, Eq)]
pub struct GraphUpdateResult {
    pub nodes: Vec<String>,
    pub edges: Vec<String>,
}

impl GraphUpdateResult {
    /// The result of a write that touched nothing.
    pub fn empty() -> (r: Self)
        ensures
            r.nodes@.len() == 0,
            r.edges@.len() == 0,
    {
        GraphUpdateResult { nodes: Vec::new(), edges: Vec::new() }
    }
}

/// What a caller supplies for a new version.
#[derive(Debug)]
pub struct VersionWrite {
    pub payload: String,
    pub confidence: Confidence,
    pub trigger_events: Vec<u128>,
    pub participants: Vec<String>,
    pub routing: Routing,
}

/// Mathematical content of a [`VersionWrite`].
pub struct WriteView {
    pub payload: Seq<char>,
    pub confidence: Confidence,
    pub trigger_events: Seq<u128>,
    pub participants: Seq<Seq<char>>,
    pub routing: Map<Seq<char>, Seq<char>>,
}

impl View for VersionWrite {
    type V = WriteView;

    open spec fn view(&self) -> WriteView {
        WriteView {
            payload: self.payload@,
            confidence: self.confidence,
            trigger_events: self.trigger_events@,
            participants: views(self.participants@),
            routing: self.routing@,
        }
    }
}

/// One version of a versioned object.
#[derive(Debug)]
pub struct Version {
    pub number: i64,
    pub payload: String,
    pub confidence: Confidence,
    pub trigger_events: Vec<u128>,
    pub participants: Vec<String>,
    pub routing: Routing,
    /// Whether this version is the current one of its chain.
    pub current: bool,
    /// The number of the version that this one replaced.
    pub supersedes: Option<i64>,
}

/// Mathematical content of a [`Version`].
pub struct VersionView {
    pub number: int,
    pub content: WriteView,
    pub current: bool,
    pub supersedes: Option<int>,
}

impl View for Version {
    type V = VersionView;

    open spec fn view(&self) -> VersionView {
        VersionView {
            number: self.number as int,
            content: WriteView {
                payload: self.payload@,
                confidence: self.confidence,
                trigger_events: self.trigger_events@,
                participants: views(self.participants@),
                routing: self.routing@,
            },
            current: self.current,
            supersedes: match self.supersedes {
                Some(n) => Some(n as int),
                None => None,
            },
        }
    }
}

impl Clone for Version {
    fn clone(&self) -> (r: Self)
        ensures
            r@ == self@,
    {
        Version {
            number: self.number,
            payload: self.payload.clone(),
            confidence: self.confidence,
            trigger_events: clone_ids(&self.trigger_events),
            participants: clone_strings(&self.participants),
            routing: self.routing.clone(),
            current: self.current,
            supersedes: self.supersedes,
        }
    }
}

/// Mathematical content of a version chain: the object's tag and its
/// versions, oldest first.
pub struct ChainView {
    pub tag: Seq<char>,
    pub versions: Seq<VersionView>,
}

/// The views of a sequence of versions.
pub open spec fn version_views(v: Seq<Version>) -> Seq<VersionView> {
    v.map_values(|x: Version| x@)
}

/// The invariants of a chain: it has a version; the versions are numbered
/// from 1 without gaps, and the numbers fit; the newest version and no other
/// is current; each version but the first points at its predecessor.
pub open spec fn chain_wf(c: ChainView) -> bool {
    &&& 1 <= c.versions.len() < i64::MAX
    &&& forall|i: int|
        0 <= i < c.versions.len() ==> {
            &&& (#[trigger] c.versions[i]).number == i + 1
            &&& c.versions[i].current == (i == c.versions.len() - 1)
            &&& c.versions[i].supersedes == (if i == 0 {
                None
            } else {
                Some(i)
            })
        }
}

/// The current version of a chain.
pub open spec fn current_of(c: ChainView) -> VersionView {
    c.versions.last()
}

/// The number that the next version of a chain gets: 1 where there is no
/// chain yet, else one more than the current version's.
pub open spec fn next_number(c: Option<ChainView>) -> int {
    match c {
        None => 1,
        Some(c) => current_of(c).number + 1,
    }
}

/// Whether one more version can be appended.
pub open spec fn has_room(c: Option<ChainView>) -> bool {
    match c {
        None => true,
        Some(c) => c.versions.len() + 1 < i64::MAX,
    }
}

/// The chain after a version with content `w` was written: a new chain with
/// tag `tag` and that version alone where there was none; else the old chain
/// with its tag kept, its current version retired, and the new version
/// appended as current, pointing at the retired one.
pub open spec fn appended(c: Option<ChainView>, tag: Seq<char>, w: WriteView) -> ChainView {
    match c {
        None => ChainView {
            tag,
            versions: seq![VersionView { number: 1, content: w, current: true, supersedes: None }],
        },
        Some(c) => {
            let last = c.versions.len() - 1;
            let retired = VersionView { current: false, ..c.versions[last] };
            ChainView {
                tag: c.tag,
                versions: c.versions.update(last, retired).push(
                    VersionView {
                        number: c.versions.len() as int + 1,
                        content: w,
                        current: true,
                        supersedes: Some(c.versions.len() as int),
                    },
                ),
            }
        },
    }
}

/// The chain after each of `writes` was written in turn.
pub open spec fn appended_all(c: Option<ChainView>, tag: Seq<char>, writes: Seq<WriteView>)
    -> Option<ChainView>
    decreases writes.len(),
{
    if writes.len() == 0 {
        c
    } else {
        Some(appended(appended_all(c, tag, writes.drop_last()), tag, writes.last()))
    }
}

/// Number of versions of an optional chain.
pub open spec fn version_count(c: Option<ChainView>) -> nat {
    match c {
        None => 0,
        Some(c) => c.versions.len(),
    }
}

/// What is known of an optional chain: if there is one, it is well formed.
pub open spec fn opt_chain_wf(c: Option<ChainView>) -> bool {
    match c {
        None => true,
        Some(c) => chain_wf(c),
    }
}

/// A write keeps a chain well formed, makes the written version the one
/// current version, links it to the version that was current before, keeps
/// every older version as it was, and never changes the tag of a chain that
/// exists.
pub proof fn law_write_retargets_current(c: Option<ChainView>, tag: Seq<char>, w: WriteView)
    requires
        opt_chain_wf(c),
        has_room(c),
    ensures
        chain_wf(appended(c, tag, w)),
        current_of(appended(c, tag, w)).content == w,
        current_of(appended(c, tag, w)).number == next_number(c),
        current_of(appended(c, tag, w)).current,
        forall|i: int|
            0 <= i < appended(c, tag, w).versions.len() && (#[trigger] appended(
                c,
                tag,
                w,
            ).versions[i]).current ==> i == appended(c, tag, w).versions.len() - 1,
        next_number(Some(appended(c, tag, w))) == next_number(c) + 1,
        c matches Some(old) ==> {
            &&& appended(c, tag, w).tag == old.tag
            &&& current_of(appended(c, tag, w)).supersedes == Some(current_of(old).number)
            &&& appended(c, tag, w).versions.len() == old.versions.len() + 1
            &&& forall|i: int|
                0 <= i < old.versions.len() ==> {
                    &&& (#[trigger] appended(c, tag, w).versions[i]).number
                        == old.versions[i].number
                    &&& appended(c, tag, w).versions[i].content == old.versions[i].content
                    &&& appended(c, tag, w).versions[i].supersedes == old.versions[i].supersedes
                    &&& !appended(c, tag, w).versions[i].current
                }
        },
        c.is_none() ==> {
            &&& appended(c, tag, w).tag == tag
            &&& appended(c, tag, w).versions.len() == 1
            &&& current_of(appended(c, tag, w)).supersedes.is_none()
        },
{
}

/// After N writes to a chain that did not exist, the next version number is
/// N + 1; in general, N writes raise the next version number by N.
pub proof fn law_next_version_counts_writes(
    c: Option<ChainView>,
    tag: Seq<char>,
    writes: Seq<WriteView>,
)
    requires
        opt_chain_wf(c),
        version_count(c) + writes.len() < i64::MAX,
    ensures
        opt_chain_wf(appended_all(c, tag, writes)),
        version_count(appended_all(c, tag, writes)) == version_count(c) + writes.len(),
        next_number(appended_all(c, tag, writes)) == next_number(c) + writes.len(),
        c.is_none() ==> next_number(appended_all(c, tag, writes)) == writes.len() + 1,
    decreases writes.len(),
{
    if writes.len() > 0 {
        let before = appended_all(c, tag, writes.drop_last());
        law_next_version_counts_writes(c, tag, writes.drop_last());
        law_write_retargets_current(before, tag, writes.last());
    }
}

/// The chain of one versioned object.
#[derive(Debug)]
pub struct VersionChain {
    tag: String,
    versions: Vec<Version>,
}

impl View for VersionChain {
    type V = ChainView;

    closed spec fn view(&self) -> ChainView {
        ChainView { tag: self.tag@, versions: version_views(self.versions@) }
    }
}

impl VersionChain {
    /// A chain always satisfies [`chain_wf`].
    #[verifier::type_invariant]
    pub closed spec fn wf(&self) -> bool {
        chain_wf(self@)
    }

    /// The tag set when the object was first created.
    pub fn tag(&self) -> (r: &String)
        ensures
            r@ == self@.tag,
    {
        &self.tag
    }

    /// Number of versions in the chain.
    pub fn len(&self) -> (n: usize)
        ensures
            n == self@.versions.len(),
            chain_wf(self@),
    {
        proof {
            use_type_invariant(self);
        }
        self.versions.len()
    }

    /// The version with number `number`, if the chain has one.
    pub fn version(&self, number: i64) -> (r: Option<&Version>)
        ensures
            chain_wf(self@),
            match r {
                Some(v) => 1 <= number <= self@.versions.len() && v@ == self@.versions[number
                    - 1],
                None => !(1 <= number <= self@.versions.len()),
            },
    {
        proof {
            use_type_invariant(self);
        }
        if 1 <= number && (number as u64) <= (self.versions.len() as u64) {
            Some(&self.versions[(number - 1) as usize])
        } else {
            None
        }
    }

    /// The current version.
    pub fn current(&self) -> (v: &Version)
        ensures
            chain_wf(self@),
            v@ == current_of(self@),
            v@.current,
    {
        proof {
            use_type_invariant(self);
        }
        &self.versions[self.versions.len() - 1]
    }

    /// The number that the next version gets.
    pub fn next_version(&self) -> (n: i64)
        ensures
            n == next_number(Some(self@)),
    {
        proof {
            use_type_invariant(self);
        }
        let last = &self.versions[self.versions.len() - 1];
        assert(last@ == self@.versions[self.versions@.len() - 1]);
        last.number + 1
    }

    /// A chain that holds one version, with content `write`.
    fn start(tag: String, write: VersionWrite) -> (c: Self)
        ensures
            c@ == appended(None, tag@, write@),
    {
        let first = Version {
            number: 1,
            payload: write.payload,
            confidence: write.confidence,
            trigger_events: write.trigger_events,
            participants: write.participants,
            routing: write.routing,
            current: true,
            supersedes: None,
        };
        let mut versions: Vec<Version> = Vec::new();
        versions.push(first);
        proof {
            assert(version_views(versions@) =~= seq![first@]);
        }
        VersionChain { tag, versions }
    }

    /// The chain with one more version, with content `write`.
    fn extend(self, write: VersionWrite) -> (c: Self)
        requires
            has_room(Some(self@)),
        ensures
            c@ == appended(Some(self@), self@.tag, write@),
    {
        proof {
            use_type_invariant(&self);
            law_write_retargets_current(Some(self@), self@.tag, write@);
        }
        let ghost old_views = version_views(self.versions@);
        let VersionChain { tag, mut versions } = self;
        let count = versions.len();
        let mut last = versions.pop().unwrap();
        let ghost last_view = last@;
        last.current = false;
        let previous = last.number;
        versions.push(last);
        let newest = Version {
            number: previous + 1,
            payload: write.payload,
            confidence: write.confidence,
            trigger_events: write.trigger_events,
            participants: write.participants,
            routing: write.routing,
            current: true,
            supersedes: Some(previous),
        };
        versions.push(newest);
        proof {
            let retired = VersionView { current: false, ..last_view };
            assert(version_views(versions@) =~= old_views.update(count - 1, retired).push(
                newest@,
            ));
        }
        VersionChain { tag, versions }
    }
}

/// The node id under which a version is known: the object's id, `:v`, and
/// the version number in decimal.
pub open spec fn version_node_text(id: Seq<char>, version: int) -> Seq<char> {
    id + ":v"@ + decimal_text(version)
}

/// The node id of version `version` of the object `id`.
pub fn version_node_id(id: &str, version: i64) -> (r: String)
    ensures
        r@ == version_node_text(id@, version as int),
{
    let head = joined(id, ":v");
    let number = decimal_i64(version);
    joined(head.as_str(), number.as_str())
}

/// `v` is the current version of the chain `c`, which exists.
pub open spec fn listed_current(c: Option<ChainView>, v: VersionView) -> bool {
    match c {
        Some(c) => v == current_of(c) && v.current,
        None => false,
    }
}

/// Of the entries of a routing map, the agents whose level is not `none`,
/// in listing order.
pub open spec fn routed_agents(directives: Seq<(Seq<char>, Seq<char>)>) -> Seq<Seq<char>>
    decreases directives.len(),
{
    if directives.len() == 0 {
        Seq::empty()
    } else {
        let rest = routed_agents(directives.drop_last());
        if directives.last().1 == "none"@ {
            rest
        } else {
            rest.push(directives.last().0)
        }
    }
}

/// The agents to which a version with this routing map is routed: those
/// whose level is not `none`.
pub fn routing_agents(routing: &Routing) -> (r: Vec<String>)
    ensures
        views(r@) == routed_agents(routing.directives()),
{
    let mut r: Vec<String> = Vec::new();
    let mut i: usize = 0;
    let n = routing.len();
    while i < n
        invariant
            i <= n,
            n == routing.directives().len(),
            views(r@) == routed_agents(routing.directives().take(i as int)),
        decreases n - i,
    {
        proof {
            let all = routing.directives();
            assert(all.take(i + 1).drop_last() =~= all.take(i as int));
        }
        let d = routing.directive(i);
        if !d.level.as_str().eq("none") {
            r.push(d.agent_id.0);
        }
        i += 1;
    }
    assert(routing.directives().take(n as int) =~= routing.directives());
    r
}

/// Mathematical content of the store: the chains of the decisions and of the
/// truth objects, by object id.
pub struct StoreView {
    pub decisions: Map<Seq<char>, ChainView>,
    pub truths: Map<Seq<char>, ChainView>,
}

/// The chains of one kind.
pub open spec fn chains_of(s: StoreView, kind: ObjectKind) -> Map<Seq<char>, ChainView> {
    match kind {
        ObjectKind::Decision => s.decisions,
        ObjectKind::TruthObject => s.truths,
    }
}

/// The chain of the object `id` of kind `kind`, if the store has one.
pub open spec fn chain_at(s: StoreView, kind: ObjectKind, id: Seq<char>) -> Option<ChainView> {
    if chains_of(s, kind).contains_key(id) {
        Some(chains_of(s, kind)[id])
    } else {
        None
    }
}

/// The store after the chain of `id` was replaced by `chain`.
pub open spec fn with_chain(s: StoreView, kind: ObjectKind, id: Seq<char>, chain: ChainView)
    -> StoreView {
    match kind {
        ObjectKind::Decision => StoreView { decisions: s.decisions.insert(id, chain), ..s },
        ObjectKind::TruthObject => StoreView { truths: s.truths.insert(id, chain), ..s },
    }
}

/// The outcome of offering version `version` with content `w` for the object
/// `id`: refused where the chain is full or `version` is not its next
/// number, else the store with that chain extended.
pub open spec fn persisted(
    s: StoreView,
    kind: ObjectKind,
    id: Seq<char>,
    tag: Seq<char>,
    version: int,
    w: WriteView,
) -> Result<StoreView, StoreError> {
    let chain = chain_at(s, kind, id);
    if !has_room(chain) {
        Err(StoreError::ChainFull)
    } else if version != next_number(chain) {
        Err(StoreError::VersionConflict { expected: next_number(chain) as i64 })
    } else {
        Ok(with_chain(s, kind, id, appended(chain, tag, w)))
    }
}

/// Every chain of the store is well formed.
pub open spec fn store_wf(s: StoreView) -> bool {
    &&& forall|id: Seq<char>| #[trigger] s.decisions.contains_key(id) ==> chain_wf(s.decisions[id])
    &&& forall|id: Seq<char>| #[trigger] s.truths.contains_key(id) ==> chain_wf(s.truths[id])
}

/// A successful write leaves a well-formed store in which a read of the
/// written object's current version returns exactly what was written, under
/// the number asked for; the next version number of that object is one
/// higher; and no other object has changed.
pub proof fn law_persist_then_read(
    s: StoreView,
    kind: ObjectKind,
    id: Seq<char>,
    tag: Seq<char>,
    version: int,
    w: WriteView,
)
    requires
        store_wf(s),
        persisted(s, kind, id, tag, version, w).is_ok(),
    ensures
        ({
            let after = persisted(s, kind, id, tag, version, w)->Ok_0;
            let chain = chain_at(after, kind, id);
            &&& store_wf(after)
            &&& chain matches Some(c) && {
                &&& current_of(c).content == w
                &&& current_of(c).number == version
                &&& current_of(c).current
                &&& forall|i: int|
                    0 <= i < c.versions.len() && (#[trigger] c.versions[i]).current ==> i
                        == c.versions.len() - 1
            }
            &&& next_number(chain) == version + 1
            &&& forall|k: ObjectKind, other: Seq<char>|
                k != kind || other != id ==> #[trigger] chain_at(after, k, other) == chain_at(
                    s,
                    k,
                    other,
                )
        }),
{
    let chain = chain_at(s, kind, id);
    law_write_retargets_current(chain, tag, w);
}

/// A refused write changes nothing: the outcome carries no store, and the
/// refusal says which number the chain expects next.
pub proof fn law_refusal_is_exact(
    s: StoreView,
    kind: ObjectKind,
    id: Seq<char>,
    tag: Seq<char>,
    version: int,
    w: WriteView,
)
    requires
        store_wf(s),
    ensures
        persisted(s, kind, id, tag, version, w).is_ok() <==> (has_room(chain_at(s, kind, id))
            && version == next_number(chain_at(s, kind, id))),
        has_room(chain_at(s, kind, id)) && version != next_number(chain_at(s, kind, id))
            ==> persisted(s, kind, id, tag, version, w) == Err::<StoreView, StoreError>(
            StoreError::VersionConflict { expected: next_number(chain_at(s, kind, id)) as i64 },
        ),
{
}

/// One call of `persist_version`, by its arguments.
pub struct PersistCall {
    pub kind: ObjectKind,
    pub id: Seq<char>,
    pub tag: Seq<char>,
    pub version: int,
    pub write: WriteView,
}

/// The store after one call: extended where the call succeeds, as it was
/// where the call is refused.
pub open spec fn after_call(s: StoreView, call: PersistCall) -> StoreView {
    match persisted(s, call.kind, call.id, call.tag, call.version, call.write) {
        Ok(after) => after,
        Err(_) => s,
    }
}

/// The store after each of `calls` in turn.
pub open spec fn after_calls(s: StoreView, calls: Seq<PersistCall>) -> StoreView
    decreases calls.len(),
{
    if calls.len() == 0 {
        s
    } else {
        after_call(after_calls(s, calls.drop_last()), calls.last())
    }
}

/// How many of `calls`, made in turn on the store `s`, write a version of
/// the object `id` of kind `kind` and succeed.
pub open spec fn successes(s: StoreView, calls: Seq<PersistCall>, kind: ObjectKind, id: Seq<char>)
    -> nat
    decreases calls.len(),
{
    if calls.len() == 0 {
        0
    } else {
        let before = after_calls(s, calls.drop_last());
        let call = calls.last();
        let earlier = successes(s, calls.drop_last(), kind, id);
        if call.kind == kind && call.id == id && persisted(
            before,
            call.kind,
            call.id,
            call.tag,
            call.version,
            call.write,
        ).is_ok() {
            earlier + 1
        } else {
            earlier
        }
    }
}

/// Whatever calls are made in whatever order, the store stays well formed,
/// and the next version number of an object is its next version number
/// before the calls plus the number of successful writes to that object. So
/// for an object that did not exist, after N successful writes the next
/// version number is N + 1.
pub proof fn law_next_version_after_calls(
    s: StoreView,
    calls: Seq<PersistCall>,
    kind: ObjectKind,
    id: Seq<char>,
)
    requires
        store_wf(s),
    ensures
        store_wf(after_calls(s, calls)),
        next_number(chain_at(after_calls(s, calls), kind, id)) == next_number(
            chain_at(s, kind, id),
        ) + successes(s, calls, kind, id),
        chain_at(s, kind, id).is_none() ==> next_number(chain_at(after_calls(s, calls), kind, id))
            == successes(s, calls, kind, id) + 1,
    decreases calls.len(),
{
    if calls.len() > 0 {
        let before = after_calls(s, calls.drop_last());
        let call = calls.last();
        law_next_version_after_calls(s, calls.drop_last(), kind, id);
        if persisted(before, call.kind, call.id, call.tag, call.version, call.write).is_ok() {
            law_persist_then_read(before, call.kind, call.id, call.tag, call.version, call.write);
        }
    }
}

/// The views of the chains of a map.
pub open spec fn chain_views(m: Map<Seq<char>, VersionChain>) -> Map<Seq<char>, ChainView> {
    m.map_values(|c: VersionChain| c@)
}

/// The versioned graph store, held in memory.
#[derive(Debug)]
pub struct VersionedGraphStore {
    decisions: StringMap<VersionChain>,
    truths: StringMap<VersionChain>,
}

impl View for VersionedGraphStore {
    type V = StoreView;

    closed spec fn view(&self) -> StoreView {
        StoreView { decisions: chain_views(self.decisions@), truths: chain_views(self.truths@) }
    }
}

impl VersionedGraphStore {
    /// Every chain of the store is well formed.
    #[verifier::type_invariant]
    pub closed spec fn wf(&self) -> bool {
        store_wf(self@)
    }

    /// A store without objects.
    pub fn new() -> (s: Self)
        ensures
            s@.decisions == Map::<Seq<char>, ChainView>::empty(),
            s@.truths == Map::<Seq<char>, ChainView>::empty(),
            store_wf(s@),
    {
        let s = VersionedGraphStore { decisions: StringMap::new(), truths: StringMap::new() };
        s
    }

    /// The chain of the object `id`, if the store has one.
    pub fn chain(&self, kind: ObjectKind, id: &str) -> (r: Option<&VersionChain>)
        ensures
            store_wf(self@),
            match r {
                Some(c) => chain_at(self@, kind, id@) == Some(c@) && chain_wf(c@),
                None => chain_at(self@, kind, id@).is_none(),
            },
    {
        proof {
            use_type_invariant(self);
        }
        let found = match kind {
            ObjectKind::Decision => self.decisions.get(id),
            ObjectKind::TruthObject => self.truths.get(id),
        };
        match found {
            Some(c) => {
                proof {
                    use_type_invariant(c);
                }
                Some(c)
            },
            None => None,
        }
    }

    /// The number that the next version of the object `id` gets: 1 where the
    /// object does not exist yet, else one more than its current version's.
    pub fn next_version(&self, kind: ObjectKind, id: &str) -> (n: i64)
        ensures
            n == next_number(chain_at(self@, kind, id@)),
            n >= 1,
            store_wf(self@),
    {
        match self.chain(kind, id) {
            Some(c) => c.next_version(),
            None => 1,
        }
    }

    /// The next version number of the decision `decision_id`.
    pub fn next_decision_version(&self, decision_id: &str) -> (n: i64)
        ensures
            n == next_number(chain_at(self@, ObjectKind::Decision, decision_id@)),
    {
        self.next_version(ObjectKind::Decision, decision_id)
    }

    /// The next version number of the truth object `truth_id`.
    pub fn next_truth_version(&self, truth_id: &str) -> (n: i64)
        ensures
            n == next_number(chain_at(self@, ObjectKind::TruthObject, truth_id@)),
    {
        self.next_version(ObjectKind::TruthObject, truth_id)
    }

    /// The current version of the object `id`, if the object exists.
    pub fn current_version(&self, kind: ObjectKind, id: &str) -> (r: Option<&Version>)
        ensures
            match r {
                Some(v) => chain_at(self@, kind, id@) matches Some(c) && v@ == current_of(c)
                    && v@.current,
                None => chain_at(self@, kind, id@).is_none(),
            },
    {
        match self.chain(kind, id) {
            Some(c) => Some(c.current()),
            None => None,
        }
    }

    /// Every object of kind `kind` with its current version: each object
    /// once, and none left out.
    pub fn current_objects(&self, kind: ObjectKind) -> (r: Vec<(String, Version)>)
        ensures
            forall|i: int|
                0 <= i < r@.len() ==> listed_current(
                    #[trigger] chain_at(self@, kind, r@[i].0@),
                    r@[i].1@,
                ),
            forall|i: int, j: int| 0 <= i < j < r@.len() ==> r@[i].0@ != r@[j].0@,
            forall|id: Seq<char>|
                chain_at(self@, kind, id).is_some() ==> exists|i: int|
                    0 <= i < r@.len() && #[trigger] r@[i].0@ == id,
    {
        let chains = match kind {
            ObjectKind::Decision => &self.decisions,
            ObjectKind::TruthObject => &self.truths,
        };
        proof {
            use_type_invariant(chains);
        }
        let mut r: Vec<(String, Version)> = Vec::new();
        let mut i: usize = 0;
        let n = chains.len();
        while i < n
            invariant
                i <= n,
                n == chains.entries().len(),
                chains.wf(),
                chains_of(self@, kind) == chain_views(chains@),
                r@.len() == i,
                forall|j: int| 0 <= j < i ==> (#[trigger] r@[j]).0@ == chains.entries()[j].0@,
                forall|j: int|
                    0 <= j < i ==> listed_current(
                        #[trigger] chain_at(self@, kind, r@[j].0@),
                        r@[j].1@,
                    ),
            decreases n - i,
        {
            let id = chains.key_at(i).clone();
            let chain = chains.value_at(i);
            let current = chain.current().clone();
            r.push((id, current));
            i += 1;
        }
        proof {
            chains.lemma_entries_cover();
            assert forall|id: Seq<char>| chain_at(self@, kind, id).is_some() implies exists|
                k: int,
            |
                0 <= k < r@.len() && #[trigger] r@[k].0@ == id by {
                let k = crate::string_map::key_index(chains.entries(), id);
                assert(r@[k].0@ == chains.entries()[k].0@);
            }
        }
        r
    }

    /// Writes version `version` of the object `id` as one step: creates the
    /// object with tag `tag` if it does not exist (an existing object keeps
    /// its tag), appends the version, retires the version that was current,
    /// links the new version to it, and makes the new version current. The
    /// write is refused, and the store left as it was, unless `version` is
    /// the chain's next number.
    pub fn persist_version(
        &mut self,
        kind: ObjectKind,
        id: String,
        tag: String,
        version: i64,
        write: VersionWrite,
    ) -> (r: Result<GraphUpdateResult, StoreError>)
        ensures
            store_wf(old(self)@),
            store_wf(final(self)@),
            match r {
                Ok(update) => {
                    &&& persisted(old(self)@, kind, id@, tag@, version as int, write@) == Ok::<
                        StoreView,
                        StoreError,
                    >(final(self)@)
                    &&& views(update.nodes@) == seq![
                        id@,
                        version_node_text(id@, version as int),
                    ]
                    &&& update.edges@.len() == 0
                },
                Err(e) => {
                    &&& persisted(old(self)@, kind, id@, tag@, version as int, write@) == Err::<
                        StoreView,
                        StoreError,
                    >(e)
                    &&& final(self)@ == old(self)@
                },
            },
    {
        let expected = self.next_version(kind, id.as_str());
        let full = match self.chain(kind, id.as_str()) {
            Some(c) => (c.len() as u64) >= (i64::MAX - 1) as u64,
            None => false,
        };
        if full {
            return Err(StoreError::ChainFull);
        }
        if version != expected {
            return Err(StoreError::VersionConflict { expected });
        }
        let version_node = version_node_id(id.as_str(), version);
        let object_node = id.clone();
        let ghost before = self@;
        proof {
            use_type_invariant(&*self);
            law_persist_then_read(before, kind, id@, tag@, version as int, write@);
        }
        let mut chains: StringMap<VersionChain> = StringMap::new();
        match kind {
            ObjectKind::Decision => {
                std::mem::swap(&mut chains, &mut self.decisions);
            },
            ObjectKind::TruthObject => {
                std::mem::swap(&mut chains, &mut self.truths);
            },
        }
        let chain = match chains.remove(id.as_str()) {
            Some(c) => c.extend(write),
            None => VersionChain::start(tag, write),
        };
        chains.insert(id, chain);
        assert(chain_views(chains@) =~= chains_of(before, kind).insert(id@, chain@));
        match kind {
            ObjectKind::Decision => {
                self.decisions = chains;
            },
            ObjectKind::TruthObject => {
                self.truths = chains;
            },
        }
        let mut nodes: Vec<String> = Vec::new();
        nodes.push(object_node);
        nodes.push(version_node);
        Ok(GraphUpdateResult { nodes, edges: Vec::new() })
    }

    /// Computes the next version number of the object `id` and writes that
    /// version, as one step. Returns the number written.
    pub fn persist_next(&mut self, kind: ObjectKind, id: String, tag: String, write: VersionWrite)
        -> (r: Result<(i64, GraphUpdateResult), StoreError>)
        ensures
            store_wf(old(self)@),
            store_wf(final(self)@),
            match r {
                Ok((version, update)) => {
                    &&& version == next_number(chain_at(old(self)@, kind, id@))
                    &&& persisted(old(self)@, kind, id@, tag@, version as int, write@) == Ok::<
                        StoreView,
                        StoreError,
                    >(final(self)@)
                    &&& views(update.nodes@) == seq![
                        id@,
                        version_node_text(id@, version as int),
                    ]
                    &&& update.edges@.len() == 0
                },
                Err(e) => {
                    &&& e == StoreError::ChainFull
                    &&& !has_room(chain_at(old(self)@, kind, id@))
                    &&& final(self)@ == old(self)@
                },
            },
    {
        let version = self.next_version(kind, id.as_str());
        match self.persist_version(kind, id, tag, version, write) {
            Ok(update) => Ok((version, update)),
            Err(e) => Err(e),
        }
    }

    /// Writes version `version` of the decision `decision_id`.
    pub fn persist_decision_version(
        &mut self,
        decision_id: String,
        version: i64,
        summary: String,
        confidence: Confidence,
        trigger_events: Vec<u128>,
        agents_involved: Vec<String>,
        routing: Routing,
    ) -> (r: Result<GraphUpdateResult, StoreError>)
        ensures
            match r {
                Ok(update) => {
                    &&& persisted(
                        old(self)@,
                        ObjectKind::Decision,
                        decision_id@,
                        Seq::empty(),
                        version as int,
                        WriteView {
                            payload: summary@,
                            confidence,
                            trigger_events: trigger_events@,
                            participants: views(agents_involved@),
                            routing: routing@,
                        },
                    ) == Ok::<StoreView, StoreError>(final(self)@)
                    &&& views(update.nodes@) == seq![
                        decision_id@,
                        version_node_text(decision_id@, version as int),
                    ]
                    &&& update.edges@.len() == 0
                },
                Err(e) => {
                    &&& persisted(
                        old(self)@,
                        ObjectKind::Decision,
                        decision_id@,
                        Seq::empty(),
                        version as int,
                        WriteView {
                            payload: summary@,
                            confidence,
                            trigger_events: trigger_events@,
                            participants: views(agents_involved@),
                            routing: routing@,
                        },
                    ) == Err::<StoreView, StoreError>(e)
                    &&& final(self)@ == old(self)@
                },
            },
    {
        let write = VersionWrite {
            payload: summary,
            confidence,
            trigger_events,
            participants: agents_involved,
            routing,
        };
        self.persist_version(ObjectKind::Decision, decision_id, String::new(), version, write)
    }

    /// Writes version `version` of the truth object `truth_id`. `kind` tags
    /// the object if this write creates it.
    pub fn persist_truth_version(
        &mut self,
        truth_id: String,
        kind: String,
        version: i64,
        summary: String,
        confidence: Confidence,
        trigger_events: Vec<u128>,
        agents_involved: Vec<String>,
        routing: Routing,
    ) -> (r: Result<GraphUpdateResult, StoreError>)
        ensures
            match r {
                Ok(update) => {
                    &&& persisted(
                        old(self)@,
                        ObjectKind::TruthObject,
                        truth_id@,
                        kind@,
                        version as int,
                        WriteView {
                            payload: summary@,
                            confidence,
                            trigger_events: trigger_events@,
                            participants: views(agents_involved@),
                            routing: routing@,
                        },
                    ) == Ok::<StoreView, StoreError>(final(self)@)
                    &&& views(update.nodes@) == seq![
                        truth_id@,
                        version_node_text(truth_id@, version as int),
                    ]
                    &&& update.edges@.len() == 0
                },
                Err(e) => {
                    &&& persisted(
                        old(self)@,
                        ObjectKind::TruthObject,
                        truth_id@,
                        kind@,
                        version as int,
                        WriteView {
                            payload: summary@,
                            confidence,
                            trigger_events: trigger_events@,
                            participants: views(agents_involved@),
                            routing: routing@,
                        },
                    ) == Err::<StoreView, StoreError>(e)
                    &&& final(self)@ == old(self)@
                },
            },
    {
        let write = VersionWrite {
            payload: summary,
            confidence,
            trigger_events,
            participants: agents_involved,
            routing,
        };
        self.persist_version(ObjectKind::TruthObject, truth_id, kind, version, write)
    }
}

} // verus!
