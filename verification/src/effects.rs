//! Linear resources: a tracker that hands out ids, lets each resource be
//! consumed once, and keeps it from being consumed while a region that
//! borrowed it is open.

use std::collections::HashSet;
use vstd::prelude::*;
use crate::errors::{EvaluatorError, ParseFailure, ResourceFailure};
use crate::text::{
    chars_of, decimal_digits, ends_with, has_prefix, has_suffix, render_nat, same_text,
    starts_with,
};
use crate::types::{Value, ValueView};

verus! {

broadcast use vstd::std_specs::hash::group_hash_axioms;

/// What an operation does to resources of one type.
#[derive(Debug, PartialEq)]
pub enum EffectType {
    Creates(String),
    Consumes(String),
    Uses(String),
    Transfers(String),
    Pure,
}

/// The view of an [`EffectType`].
pub ghost enum EffectTypeView {
    Creates(Seq<char>),
    Consumes(Seq<char>),
    Uses(Seq<char>),
    Transfers(Seq<char>),
    Pure,
}

impl View for EffectType {
    type V = EffectTypeView;

    open spec fn view(&self) -> EffectTypeView {
        match self {
            EffectType::Creates(r) => EffectTypeView::Creates(r@),
            EffectType::Consumes(r) => EffectTypeView::Consumes(r@),
            EffectType::Uses(r) => EffectTypeView::Uses(r@),
            EffectType::Transfers(r) => EffectTypeView::Transfers(r@),
            EffectType::Pure => EffectTypeView::Pure,
        }
    }
}

impl EffectTypeView {
    /// The annotation that denotes the effect.
    pub open spec fn text(self) -> Seq<char> {
        match self {
            EffectTypeView::Creates(r) => "!creates["@ + r + "]"@,
            EffectTypeView::Consumes(r) => "!consumes["@ + r + "]"@,
            EffectTypeView::Uses(r) => "!uses["@ + r + "]"@,
            EffectTypeView::Transfers(r) => "!transfers["@ + r + "]"@,
            EffectTypeView::Pure => "!pure"@,
        }
    }
}

/// `head`, then `inner`, then `]`.
fn bracket(head: &str, inner: &str) -> (r: String)
    ensures
        r@ == head@ + inner@ + "]"@,
{
    let mut s = head.to_owned();
    s.append(inner);
    s.append("]");
    s
}

impl EffectType {
    /// The annotation that denotes the effect.
    pub fn to_text(&self) -> (r: String)
        ensures
            r@ == self@.text(),
    {
        match self {
            EffectType::Creates(r) => bracket("!creates[", r.as_str()),
            EffectType::Consumes(r) => bracket("!consumes[", r.as_str()),
            EffectType::Uses(r) => bracket("!uses[", r.as_str()),
            EffectType::Transfers(r) => bracket("!transfers[", r.as_str()),
            EffectType::Pure => "!pure".to_owned(),
        }
    }
}

/// The text between a prefix of `skip` characters and a closing `]`.
pub open spec fn bracketed(s: Seq<char>, skip: int) -> Seq<char> {
    s.subrange(skip, s.len() - 1)
}

/// What an effect annotation denotes: `!creates[R]`, `!consumes[R]`,
/// `!uses[R]`, `!transfers[R]` or `!pure`; nothing else is one.
pub open spec fn effect_of(s: Seq<char>) -> Option<EffectTypeView> {
    if has_prefix(s, "!creates["@) && has_suffix(s, "]"@) {
        Some(EffectTypeView::Creates(bracketed(s, 9)))
    } else if has_prefix(s, "!consumes["@) && has_suffix(s, "]"@) {
        Some(EffectTypeView::Consumes(bracketed(s, 10)))
    } else if has_prefix(s, "!uses["@) && has_suffix(s, "]"@) {
        Some(EffectTypeView::Uses(bracketed(s, 6)))
    } else if has_prefix(s, "!transfers["@) && has_suffix(s, "]"@) {
        Some(EffectTypeView::Transfers(bracketed(s, 11)))
    } else if s == "!pure"@ {
        Some(EffectTypeView::Pure)
    } else {
        None
    }
}

/// A text that begins with a prefix ending in `[` and ends with `]` is
/// longer than the prefix.
proof fn lemma_bracket_room(s: Seq<char>, p: Seq<char>)
    requires
        has_prefix(s, p),
        has_suffix(s, seq![']']),
        p.len() > 0,
        p.last() == '[',
    ensures
        p.len() + 1 <= s.len(),
{
    assert(s.subrange(0, p.len() as int)[p.len() - 1] == '[');
    assert(s.subrange(s.len() - 1, s.len() as int)[0] == ']');
}

/// The characters of `text` from `skip` up to the last one, as a string.
fn inner_text(text: &str, skip: usize) -> (r: String)
    requires
        skip + 1 <= text@.len(),
    ensures
        r@ == bracketed(text@, skip as int),
{
    let n = text.unicode_len();
    text.substring_char(skip, n - 1).to_owned()
}

/// Reads an effect annotation.
#[verifier::rlimit(40)]
pub fn parse_effect(effect_str: &str) -> (r: Result<EffectType, EvaluatorError>)
    ensures
        match r {
            Ok(e) => effect_of(effect_str@) == Some(e@),
            Err(e) => effect_of(effect_str@) is None && e == EvaluatorError::ParseError(
                ParseFailure::InvalidEffect,
            ),
        },
{
    proof {
        reveal_strlit("!creates[");
        reveal_strlit("!consumes[");
        reveal_strlit("!uses[");
        reveal_strlit("!transfers[");
        reveal_strlit("]");
    }
    let s = chars_of(effect_str);
    let closed = ends_with(&s, "]");
    proof {
        assert("]"@ =~= seq![']']);
        if closed {
            if has_prefix(s@, "!creates["@) {
                lemma_bracket_room(s@, "!creates["@);
            }
            if has_prefix(s@, "!consumes["@) {
                lemma_bracket_room(s@, "!consumes["@);
            }
            if has_prefix(s@, "!uses["@) {
                lemma_bracket_room(s@, "!uses["@);
            }
            if has_prefix(s@, "!transfers["@) {
                lemma_bracket_room(s@, "!transfers["@);
            }
        }
    }
    if closed && starts_with(&s, "!creates[") {
        Ok(EffectType::Creates(inner_text(effect_str, 9)))
    } else if closed && starts_with(&s, "!consumes[") {
        Ok(EffectType::Consumes(inner_text(effect_str, 10)))
    } else if closed && starts_with(&s, "!uses[") {
        Ok(EffectType::Uses(inner_text(effect_str, 6)))
    } else if closed && starts_with(&s, "!transfers[") {
        Ok(EffectType::Transfers(inner_text(effect_str, 11)))
    } else if crate::text::same_text(effect_str, "!pure") {
        Ok(EffectType::Pure)
    } else {
        Err(EvaluatorError::ParseError(ParseFailure::InvalidEffect))
    }
}

/// A tracked resource.
#[derive(Debug)]
pub struct Resource {
    id: usize,
    resource_type: String,
    consumed: bool,
}

/// The view of a [`Resource`].
pub ghost struct ResourceView {
    pub id: nat,
    pub type_tag: Seq<char>,
    pub consumed: bool,
}

impl View for Resource {
    type V = ResourceView;

    closed spec fn view(&self) -> ResourceView {
        ResourceView { id: self.id as nat, type_tag: self.resource_type@, consumed: self.consumed }
    }
}

impl Clone for Resource {
    fn clone(&self) -> (r: Self)
        ensures
            r@ == self@,
    {
        Resource { id: self.id, resource_type: self.resource_type.clone(), consumed: self.consumed }
    }
}

impl Resource {
    /// A live resource.
    pub fn new(id: usize, resource_type: &str) -> (r: Resource)
        ensures
            r@ == (ResourceView { id: id as nat, type_tag: resource_type@, consumed: false }),
    {
        Resource { id, resource_type: resource_type.to_owned(), consumed: false }
    }

    /// Consumes the resource, which can be done once.
    pub fn mark_consumed(&mut self) -> (r: Result<(), EvaluatorError>)
        ensures
            old(self)@.consumed ==> final(self)@ == old(self)@ && r == Err::<(), EvaluatorError>(
                EvaluatorError::ResourceError(ResourceFailure::AlreadyConsumed),
            ),
            !old(self)@.consumed ==> r is Ok && final(self)@ == (ResourceView {
                consumed: true,
                ..old(self)@
            }),
    {
        if self.consumed {
            return Err(EvaluatorError::ResourceError(ResourceFailure::AlreadyConsumed));
        }
        self.consumed = true;
        Ok(())
    }

    /// Whether the resource has been consumed.
    pub fn is_consumed(&self) -> (r: bool)
        ensures
            r == self@.consumed,
    {
        self.consumed
    }

    /// The type that the resource was created with.
    pub fn resource_type(&self) -> (r: &str)
        ensures
            r@ == self@.type_tag,
    {
        self.resource_type.as_str()
    }
}

/// The view of a [`ResourceManager`]: the resources, each at the index that
/// is its id, and the open regions, innermost last.
pub ghost struct TrackerView {
    pub resources: Seq<ResourceView>,
    pub regions: Seq<Set<usize>>,
}

/// Some open region holds `id`.
pub open spec fn borrowed_in(regions: Seq<Set<usize>>, id: usize) -> bool {
    exists|i: int| 0 <= i < regions.len() && #[trigger] regions[i].contains(id)
}

impl TrackerView {
    /// The tracker before anything was created.
    pub open spec fn empty() -> TrackerView {
        TrackerView { resources: Seq::empty(), regions: Seq::empty() }
    }

    /// Every resource knows the id that it is filed under.
    pub open spec fn well_formed(self) -> bool {
        forall|i: int| 0 <= i < self.resources.len() ==> (#[trigger] self.resources[i]).id == i
    }

    /// Whether a resource has the id `id`.
    pub open spec fn has(self, id: usize) -> bool {
        id < self.resources.len()
    }

    /// The tracker after a resource of type `type_tag` was created: it gets
    /// the least id that no resource has.
    pub open spec fn create(self, type_tag: Seq<char>) -> TrackerView {
        TrackerView {
            resources: self.resources.push(
                ResourceView { id: self.resources.len(), type_tag, consumed: false },
            ),
            ..self
        }
    }

    /// Whether `id` may be used: it must exist and be live.
    pub open spec fn check(self, id: usize) -> Result<(), ResourceFailure> {
        if !self.has(id) {
            Err(ResourceFailure::UnknownId)
        } else if self.resources[id as int].consumed {
            Err(ResourceFailure::Consumed)
        } else {
            Ok(())
        }
    }

    /// The tracker after `id` was consumed, or why it cannot be.
    pub open spec fn consume(self, id: usize) -> Result<TrackerView, ResourceFailure> {
        if !self.has(id) {
            Err(ResourceFailure::UnknownId)
        } else if borrowed_in(self.regions, id) {
            Err(ResourceFailure::BorrowedActive)
        } else if self.resources[id as int].consumed {
            Err(ResourceFailure::AlreadyConsumed)
        } else {
            Ok(
                TrackerView {
                    resources: self.resources.update(
                        id as int,
                        ResourceView { consumed: true, ..self.resources[id as int] },
                    ),
                    ..self
                },
            )
        }
    }

    /// The tracker with one more region, which is empty.
    pub open spec fn start_region(self) -> TrackerView {
        TrackerView { regions: self.regions.push(Set::empty()), ..self }
    }

    /// The tracker without its innermost region, or why there is none to close.
    pub open spec fn end_region(self) -> Result<TrackerView, ResourceFailure> {
        if self.regions.len() == 0 {
            Err(ResourceFailure::NoActiveRegion)
        } else {
            Ok(TrackerView { regions: self.regions.drop_last(), ..self })
        }
    }

    /// The tracker after the innermost region borrowed `id`, or why it cannot.
    pub open spec fn borrow(self, id: usize) -> Result<TrackerView, ResourceFailure> {
        match self.check(id) {
            Err(e) => Err(e),
            Ok(_) => if self.regions.len() == 0 {
                Err(ResourceFailure::NoActiveRegion)
            } else {
                Ok(
                    TrackerView {
                        regions: self.regions.update(
                            self.regions.len() - 1,
                            self.regions.last().insert(id),
                        ),
                        ..self
                    },
                )
            },
        }
    }

    /// The resources with an id below `n` that were never consumed, by id,
    /// each with its type.
    pub open spec fn leaks_below(self, n: nat) -> Seq<(usize, Seq<char>)>
        decreases n,
    {
        if n == 0 {
            Seq::empty()
        } else {
            let rest = self.leaks_below((n - 1) as nat);
            if n <= self.resources.len() && !self.resources[n - 1].consumed {
                rest.push(((n - 1) as usize, self.resources[n - 1].type_tag))
            } else {
                rest
            }
        }
    }

    /// Every resource that was never consumed, by id, with its type.
    pub open spec fn leaks(self) -> Seq<(usize, Seq<char>)> {
        self.leaks_below(self.resources.len())
    }

    /// Some resource was never consumed.
    pub open spec fn has_live_resource(self) -> bool {
        exists|i: int| 0 <= i < self.resources.len() && !(#[trigger] self.resources[i]).consumed
    }

    /// How many resources with an id below `n` were consumed.
    pub open spec fn consumed_below(self, n: nat) -> nat
        decreases n,
    {
        if n == 0 {
            0
        } else {
            let rest = self.consumed_below((n - 1) as nat);
            if n <= self.resources.len() && self.resources[n - 1].consumed {
                rest + 1
            } else {
                rest
            }
        }
    }
}

impl TrackerView {
    /// Whether a resource with an id below `n` has the type `tag`.
    pub open spec fn seen_below(self, tag: Seq<char>, n: int) -> bool
        decreases n,
    {
        if n <= 0 || n > self.resources.len() {
            false
        } else {
            self.seen_below(tag, n - 1) || self.resources[n - 1].type_tag == tag
        }
    }

    /// How many resources with an id below `n` have the type `tag`.
    pub open spec fn count_below(self, tag: Seq<char>, n: int) -> nat
        decreases n,
    {
        if n <= 0 || n > self.resources.len() {
            0
        } else if self.resources[n - 1].type_tag == tag {
            self.count_below(tag, n - 1) + 1
        } else {
            self.count_below(tag, n - 1)
        }
    }

    /// One line for each type that a resource with an id below `n` has, in
    /// the order in which the types first occur: the type and how many
    /// resources have it.
    pub open spec fn type_lines(self, n: int) -> Seq<char>
        decreases n,
    {
        if n <= 0 || n > self.resources.len() {
            Seq::empty()
        } else {
            let tag = self.resources[n - 1].type_tag;
            if self.seen_below(tag, n - 1) {
                self.type_lines(n - 1)
            } else {
                self.type_lines(n - 1) + "  "@ + tag + ": "@ + decimal_digits(
                    self.count_below(tag, self.resources.len() as int),
                ) + "\n"@
            }
        }
    }

    /// The statistics of the tracker as text: how many resources there
    /// are, how many of them are live and how many are consumed, and how
    /// many there are of each type.
    pub open spec fn stats(self) -> Seq<char> {
        let total = self.resources.len();
        let consumed = self.consumed_below(total);
        "Resources: "@ + decimal_digits(total) + " total, "@ + decimal_digits(
            (total - consumed) as nat,
        ) + " active, "@ + decimal_digits(consumed) + " consumed\nBy type:\n"@ + self.type_lines(
            total as int,
        )
    }
}

/// The view of a list of leaks.
pub open spec fn leaks_view(v: Seq<(usize, String)>) -> Seq<(usize, Seq<char>)> {
    Seq::new(v.len(), |i: int| (v[i].0, v[i].1@))
}

/// Tracks every resource of one interpreter.
///
/// Ids are handed out from 0 upward and no resource is ever removed, so
/// the resource of an id stands at that index of `resources`: the list is
/// the map from ids to resources, and that its keys are the ids handed out
/// needs no saying. The regions are the sets of the ids borrowed in them,
/// the innermost region last.
#[derive(Debug)]
pub struct ResourceManager {
    resources: Vec<Resource>,
    current_regions: Vec<HashSet<usize>>,
}

impl View for ResourceManager {
    type V = TrackerView;

    closed spec fn view(&self) -> TrackerView {
        TrackerView {
            resources: Seq::new(self.resources@.len(), |i: int| self.resources@[i]@),
            regions: Seq::new(
                self.current_regions@.len(),
                |i: int| self.current_regions@[i]@,
            ),
        }
    }
}

/// `HashSet::clone` of std. The copy holds the ids that `region` holds.
#[verifier::external_body]
fn copy_region(region: &HashSet<usize>) -> (r: HashSet<usize>)
    ensures
        r@ == region@,
{
    region.clone()
}

impl Clone for ResourceManager {
    fn clone(&self) -> (r: Self)
        ensures
            r@ == self@,
    {
        let mut resources: Vec<Resource> = Vec::new();
        let mut i: usize = 0;
        while i < self.resources.len()
            invariant
                i <= self.resources.len(),
                resources@.len() == i,
                forall|j: int| 0 <= j < i ==> resources@[j]@ == self.resources@[j]@,
            decreases self.resources.len() - i,
        {
            resources.push(self.resources[i].clone());
            i += 1;
        }
        let mut regions: Vec<HashSet<usize>> = Vec::new();
        let mut k: usize = 0;
        while k < self.current_regions.len()
            invariant
                k <= self.current_regions.len(),
                regions@.len() == k,
                forall|j: int| 0 <= j < k ==> regions@[j]@ == self.current_regions@[j]@,
            decreases self.current_regions.len() - k,
        {
            regions.push(copy_region(&self.current_regions[k]));
            k += 1;
        }
        let r = ResourceManager { resources, current_regions: regions };
        assert(r@.resources =~= self@.resources);
        assert(r@.regions =~= self@.regions);
        r
    }
}

impl ResourceManager {
    /// A tracker without resources or regions.
    pub fn new() -> (r: ResourceManager)
        ensures
            r@ == TrackerView::empty(),
    {
        let r = ResourceManager { resources: Vec::new(), current_regions: Vec::new() };
        assert(r@.resources =~= Seq::empty());
        assert(r@.regions =~= Seq::empty());
        r
    }

    /// Creates a resource of the given type and returns its id, which no
    /// resource had before.
    pub fn create_resource(&mut self, resource_type: &str) -> (id: usize)
        ensures
            id == old(self)@.resources.len(),
            !old(self)@.has(id),
            final(self)@ == old(self)@.create(resource_type@),
    {
        let ghost before = self@;
        let id = self.resources.len();
        self.resources.push(Resource::new(id, resource_type));
        assert(self@.resources =~= before.create(resource_type@).resources);
        assert(self@.regions =~= before.regions);
        id
    }

    /// Consumes the resource `id`: it must exist, be borrowed by no open
    /// region and not have been consumed before.
    pub fn consume_resource(&mut self, id: usize) -> (r: Result<(), EvaluatorError>)
        ensures
            match old(self)@.consume(id) {
                Ok(t) => r is Ok && final(self)@ == t,
                Err(e) => r == Err::<(), EvaluatorError>(EvaluatorError::ResourceError(e))
                    && final(self)@ == old(self)@,
            },
    {
        let ghost before = self@;
        if id >= self.resources.len() {
            return Err(EvaluatorError::ResourceError(ResourceFailure::UnknownId));
        }
        if self.is_borrowed(id) {
            return Err(EvaluatorError::ResourceError(ResourceFailure::BorrowedActive));
        }
        let mut resource = self.resources[id].clone();
        match resource.mark_consumed() {
            Err(e) => Err(e),
            Ok(_) => {
                self.resources[id] = resource;
                assert(self@.resources =~= before.consume(id)->Ok_0.resources);
                assert(self@.regions =~= before.regions);
                Ok(())
            },
        }
    }

    /// Whether the resource `id` exists and is live.
    pub fn check_resource(&self, id: usize) -> (r: Result<(), EvaluatorError>)
        ensures
            match self@.check(id) {
                Ok(_) => r is Ok,
                Err(e) => r == Err::<(), EvaluatorError>(EvaluatorError::ResourceError(e)),
            },
    {
        if id >= self.resources.len() {
            Err(EvaluatorError::ResourceError(ResourceFailure::UnknownId))
        } else if self.resources[id].is_consumed() {
            Err(EvaluatorError::ResourceError(ResourceFailure::Consumed))
        } else {
            Ok(())
        }
    }

    /// The type that the resource `id` was created with.
    pub fn resource_type(&self, id: usize) -> (r: Result<String, EvaluatorError>)
        ensures
            match r {
                Ok(t) => self@.has(id) && t@ == self@.resources[id as int].type_tag,
                Err(e) => !self@.has(id) && e == EvaluatorError::ResourceError(
                    ResourceFailure::UnknownId,
                ),
            },
    {
        if id >= self.resources.len() {
            Err(EvaluatorError::ResourceError(ResourceFailure::UnknownId))
        } else {
            Ok(self.resources[id].resource_type().to_owned())
        }
    }

    /// Opens a region inside the open ones.
    pub fn start_region(&mut self)
        ensures
            final(self)@ == old(self)@.start_region(),
    {
        let ghost before = self@;
        self.current_regions.push(HashSet::new());
        assert(self@.regions =~= before.start_region().regions);
        assert(self@.resources =~= before.resources);
    }

    /// Closes the innermost region, which ends its borrows.
    pub fn end_region(&mut self) -> (r: Result<(), EvaluatorError>)
        ensures
            match old(self)@.end_region() {
                Ok(t) => r is Ok && final(self)@ == t,
                Err(e) => r == Err::<(), EvaluatorError>(EvaluatorError::ResourceError(e))
                    && final(self)@ == old(self)@,
            },
    {
        let ghost before = self@;
        match self.current_regions.pop() {
            Some(_) => {
                assert(self@.regions =~= before.regions.drop_last());
                assert(self@.resources =~= before.resources);
                Ok(())
            },
            None => {
                assert(self@.regions =~= before.regions);
                assert(self@.resources =~= before.resources);
                Err(EvaluatorError::ResourceError(ResourceFailure::NoActiveRegion))
            },
        }
    }

    /// Borrows the resource `id` in the innermost region: the resource must
    /// exist and be live, and a region must be open.
    pub fn borrow_resource(&mut self, id: usize) -> (r: Result<(), EvaluatorError>)
        ensures
            match old(self)@.borrow(id) {
                Ok(t) => r is Ok && final(self)@ == t,
                Err(e) => r == Err::<(), EvaluatorError>(EvaluatorError::ResourceError(e))
                    && final(self)@ == old(self)@,
            },
    {
        let ghost before = self@;
        match self.check_resource(id) {
            Err(e) => {
                return Err(e);
            },
            Ok(_) => {},
        }
        match self.current_regions.pop() {
            Some(region) => {
                let mut region = region;
                region.insert(id);
                self.current_regions.push(region);
                assert(self@.regions =~= before.borrow(id)->Ok_0.regions);
                assert(self@.resources =~= before.resources);
                Ok(())
            },
            None => {
                assert(self@.regions =~= before.regions);
                assert(self@.resources =~= before.resources);
                Err(EvaluatorError::ResourceError(ResourceFailure::NoActiveRegion))
            },
        }
    }

    /// Whether some open region has borrowed the resource `id`.
    pub fn is_borrowed(&self, id: usize) -> (r: bool)
        ensures
            r == borrowed_in(self@.regions, id),
    {
        let mut i: usize = 0;
        while i < self.current_regions.len()
            invariant
                i <= self.current_regions.len(),
                forall|j: int| 0 <= j < i ==> !self@.regions[j].contains(id),
            decreases self.current_regions.len() - i,
        {
            if self.current_regions[i].contains(&id) {
                assert(self@.regions[i as int].contains(id));
                return true;
            }
            i += 1;
        }
        false
    }

    /// Every resource that was never consumed, by id, with its type.
    pub fn check_for_leaks(&self) -> (r: Vec<(usize, String)>)
        ensures
            leaks_view(r@) == self@.leaks(),
    {
        let mut leaked: Vec<(usize, String)> = Vec::new();
        let mut id: usize = 0;
        while id < self.resources.len()
            invariant
                id <= self.resources.len(),
                leaks_view(leaked@) =~= self@.leaks_below(id as nat),
            decreases self.resources.len() - id,
        {
            let ghost before = leaks_view(leaked@);
            if !self.resources[id].is_consumed() {
                leaked.push((id, self.resources[id].resource_type().to_owned()));
                assert(leaks_view(leaked@) =~= before.push(
                    (id, self@.resources[id as int].type_tag),
                ));
            }
            id += 1;
        }
        leaked
    }

    /// How many resources were consumed.
    fn count_consumed(&self) -> (r: usize)
        ensures
            r == self@.consumed_below(self@.resources.len()),
            r <= self@.resources.len(),
    {
        let mut count: usize = 0;
        let mut id: usize = 0;
        while id < self.resources.len()
            invariant
                id <= self.resources.len(),
                count == self@.consumed_below(id as nat),
                count <= id,
            decreases self.resources.len() - id,
        {
            if self.resources[id].is_consumed() {
                count += 1;
            }
            id += 1;
        }
        count
    }
    /// Whether a resource with an id below `n` has the same type as the resource `n`.
    fn type_seen_before(&self, n: usize) -> (r: bool)
        requires
            n < self@.resources.len(),
        ensures
            r == self@.seen_below(self@.resources[n as int].type_tag, n as int),
    {
        let ghost tag = self@.resources[n as int].type_tag;
        let mut i: usize = 0;
        while i < n
            invariant
                i <= n,
                n < self.resources.len(),
                tag == self@.resources[n as int].type_tag,
                !self@.seen_below(tag, i as int),
            decreases n - i,
        {
            if same_text(self.resources[i].resource_type(), self.resources[n].resource_type()) {
                proof {
                    lemma_seen_stays(self@, tag, i + 1, n as int);
                }
                return true;
            }
            i += 1;
        }
        false
    }

    /// How many resources have the same type as the resource `n`.
    fn count_of_type(&self, n: usize) -> (r: usize)
        requires
            n < self@.resources.len(),
        ensures
            r == self@.count_below(
                self@.resources[n as int].type_tag,
                self@.resources.len() as int,
            ),
    {
        let ghost tag = self@.resources[n as int].type_tag;
        let mut count: usize = 0;
        let mut i: usize = 0;
        while i < self.resources.len()
            invariant
                i <= self.resources.len(),
                n < self.resources.len(),
                tag == self@.resources[n as int].type_tag,
                count == self@.count_below(tag, i as int),
                count <= i,
            decreases self.resources.len() - i,
        {
            if same_text(self.resources[i].resource_type(), self.resources[n].resource_type()) {
                count += 1;
            }
            i += 1;
        }
        count
    }

    /// The statistics of the tracker as text.
    #[verifier::rlimit(40)]
    pub fn stats(&self) -> (r: String)
        ensures
            r@ == self@.stats(),
    {
        let total = self.resources.len();
        let consumed = self.count_consumed();
        let mut lines = String::new();
        let mut i: usize = 0;
        while i < total
            invariant
                i <= total,
                total == self.resources.len(),
                lines@ == self@.type_lines(i as int),
            decreases total - i,
        {
            if !self.type_seen_before(i) {
                lines.append("  ");
                lines.append(self.resources[i].resource_type());
                lines.append(": ");
                lines.append(render_nat(self.count_of_type(i) as u64).as_str());
                lines.append("\n");
            }
            i += 1;
        }
        let mut text = "Resources: ".to_owned();
        text.append(render_nat(total as u64).as_str());
        text.append(" total, ");
        text.append(render_nat((total - consumed) as u64).as_str());
        text.append(" active, ");
        text.append(render_nat(consumed as u64).as_str());
        text.append(" consumed\nBy type:\n");
        text.append(lines.as_str());
        text
    }
}

/// A type that was seen below an id is seen below every later id.
pub proof fn lemma_seen_stays(t: TrackerView, tag: Seq<char>, n: int, m: int)
    requires
        0 <= n <= m <= t.resources.len(),
        t.seen_below(tag, n),
    ensures
        t.seen_below(tag, m),
    decreases m - n,
{
    if n < m {
        lemma_seen_stays(t, tag, n, m - 1);
    }
}

/// A tracker that is well formed stays so, whatever is done to it.
pub proof fn lemma_well_formed_preserved(t: TrackerView, id: usize, type_tag: Seq<char>)
    requires
        t.well_formed(),
    ensures
        TrackerView::empty().well_formed(),
        t.create(type_tag).well_formed(),
        t.consume(id) is Ok ==> t.consume(id)->Ok_0.well_formed(),
        t.borrow(id) is Ok ==> t.borrow(id)->Ok_0.well_formed(),
        t.start_region().well_formed(),
        t.end_region() is Ok ==> t.end_region()->Ok_0.well_formed(),
{
}

/// A resource is consumed at most once: after it was consumed, it cannot be
/// consumed again.
pub proof fn lemma_single_use(t: TrackerView, id: usize)
    requires
        t.consume(id) is Ok,
    ensures
        t.consume(id)->Ok_0.consume(id) == Err::<TrackerView, ResourceFailure>(
            ResourceFailure::AlreadyConsumed,
        ),
{
    let after = t.consume(id)->Ok_0;
    assert(after.regions == t.regions);
}

/// A borrow blocks consumption for as long as its region is open: a live
/// resource that is borrowed in a new region cannot be consumed until the
/// region is closed, and can be afterwards.
pub proof fn lemma_borrow_blocks_consumption(t: TrackerView, id: usize)
    requires
        t.consume(id) is Ok,
    ensures
        t.start_region().borrow(id) is Ok,
        t.start_region().borrow(id)->Ok_0.consume(id) == Err::<TrackerView, ResourceFailure>(
            ResourceFailure::BorrowedActive,
        ),
        t.start_region().borrow(id)->Ok_0.end_region() == Ok::<TrackerView, ResourceFailure>(t),
{
    let opened = t.start_region();
    let borrowed = opened.borrow(id)->Ok_0;
    assert(borrowed.regions[borrowed.regions.len() - 1].contains(id));
    assert(borrowed.regions.drop_last() =~= t.regions);
}

/// Leaks are reported if and only if some resource was never consumed.
pub proof fn lemma_leaks_iff_live(t: TrackerView)
    ensures
        t.leaks().len() > 0 <==> t.has_live_resource(),
{
    lemma_leaks_below(t, t.resources.len());
}

/// Up to any id, leaks are reported if and only if a resource below it is live.
pub proof fn lemma_leaks_below(t: TrackerView, n: nat)
    requires
        n <= t.resources.len(),
    ensures
        t.leaks_below(n).len() > 0 <==> exists|i: int|
            0 <= i < n && !(#[trigger] t.resources[i]).consumed,
    decreases n,
{
    if n > 0 {
        lemma_leaks_below(t, (n - 1) as nat);
        if !t.resources[n - 1].consumed {
            assert(0 <= n - 1 < n && !t.resources[n - 1].consumed);
        }
    }
}

/// The resource id that a value carries.
pub open spec fn resource_id_of(v: ValueView) -> Option<usize> {
    match v {
        ValueView::Resource(id, _) => Some(id as usize),
        _ => None,
    }
}

/// What a resource wraps; of any other value, the value itself.
pub open spec fn unwrapped(v: ValueView) -> ValueView {
    match v {
        ValueView::Resource(_, inner) => *inner,
        _ => v,
    }
}

/// Values as handles of resources.
pub trait ResourceValue: Sized {
    /// The id of the resource, if the value is one.
    fn get_resource_id(&self) -> Option<usize>;

    /// The value as the resource `id`; a resource keeps what it wraps.
    fn with_resource_id(self, id: usize) -> Self;

    /// Whether the value is a resource.
    fn is_resource(&self) -> bool;
}

impl ResourceValue for Value {
    /// The id of the resource, if the value is one.
    fn get_resource_id(&self) -> (r: Option<usize>)
        ensures
            r == resource_id_of(self@),
    {
        match self {
            Value::Resource(id, _) => Some(*id),
            _ => None,
        }
    }

    /// The value as the resource `id`; a resource keeps what it wraps.
    fn with_resource_id(self, id: usize) -> (r: Value)
        ensures
            r@ == ValueView::Resource(id as nat, Box::new(unwrapped(self@))),
    {
        match self {
            Value::Resource(_, value) => Value::Resource(id, value),
            other => Value::Resource(id, Box::new(other)),
        }
    }

    /// Whether the value is a resource.
    fn is_resource(&self) -> (r: bool)
        ensures
            r == (self@ is Resource),
    {
        match self {
            Value::Resource(_, _) => true,
            _ => false,
        }
    }
}

/// Makes `value` a resource of the given type, under a fresh id.
pub fn tag_as_resource(value: Value, resource_type: &str, manager: &mut ResourceManager) -> (r:
    Value)
    ensures
        final(manager)@ == old(manager)@.create(resource_type@),
        r@ == ValueView::Resource(old(manager)@.resources.len(), Box::new(unwrapped(value@))),
{
    let id = manager.create_resource(resource_type);
    value.with_resource_id(id)
}

/// Whether `value` is a resource that may be used: one that exists and is live.
pub fn use_resource(value: &Value, manager: &ResourceManager) -> (r: Result<(), EvaluatorError>)
    ensures
        match resource_id_of(value@) {
            None => r == Err::<(), EvaluatorError>(
                EvaluatorError::ResourceError(ResourceFailure::NotAResource),
            ),
            Some(id) => match manager@.check(id) {
                Ok(_) => r is Ok,
                Err(e) => r == Err::<(), EvaluatorError>(EvaluatorError::ResourceError(e)),
            },
        },
{
    match value.get_resource_id() {
        Some(id) => manager.check_resource(id),
        None => Err(EvaluatorError::ResourceError(ResourceFailure::NotAResource)),
    }
}

/// Consumes the resource `value` and hands out what it wraps. A borrowed
/// handle is no resource and cannot be consumed.
pub fn consume_resource(value: &Value, manager: &mut ResourceManager) -> (r: Result<
    Value,
    EvaluatorError,
>)
    ensures
        match resource_id_of(value@) {
            None => r == Err::<Value, EvaluatorError>(
                EvaluatorError::ResourceError(ResourceFailure::NotAResource),
            ) && final(manager)@ == old(manager)@,
            Some(id) => match old(manager)@.consume(id) {
                Ok(t) => r is Ok && r->Ok_0@ == unwrapped(value@) && final(manager)@ == t,
                Err(e) => r == Err::<Value, EvaluatorError>(EvaluatorError::ResourceError(e))
                    && final(manager)@ == old(manager)@,
            },
        },
{
    match value {
        Value::Resource(id, inner) => {
            match manager.consume_resource(*id) {
                Ok(_) => Ok((**inner).clone()),
                Err(e) => Err(e),
            }
        },
        _ => Err(EvaluatorError::ResourceError(ResourceFailure::NotAResource)),
    }
}

/// Borrows the resource `value` in the innermost region and hands out a
/// borrowed handle of it.
pub fn borrow_resource(value: &Value, manager: &mut ResourceManager) -> (r: Result<
    Value,
    EvaluatorError,
>)
    ensures
        match resource_id_of(value@) {
            None => r == Err::<Value, EvaluatorError>(
                EvaluatorError::ResourceError(ResourceFailure::NotAResource),
            ) && final(manager)@ == old(manager)@,
            Some(id) => match old(manager)@.borrow(id) {
                Ok(t) => r is Ok && r->Ok_0@ == ValueView::BorrowedResource(
                    id as nat,
                    Box::new(unwrapped(value@)),
                ) && final(manager)@ == t,
                Err(e) => r == Err::<Value, EvaluatorError>(EvaluatorError::ResourceError(e))
                    && final(manager)@ == old(manager)@,
            },
        },
{
    match value {
        Value::Resource(id, inner) => {
            match manager.borrow_resource(*id) {
                Ok(_) => Ok(Value::BorrowedResource(*id, Box::new((**inner).clone()))),
                Err(e) => Err(e),
            }
        },
        _ => Err(EvaluatorError::ResourceError(ResourceFailure::NotAResource)),
    }
}

} // verus!
