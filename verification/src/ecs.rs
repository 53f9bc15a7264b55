//! The component store: a `World` keyed by dense entity ids.
//!
//! Entities are opaque integer ids handed out in increasing order starting
//! at zero; none is ever removed.  The store owns one column per component
//! kind, each a vector of optional component values whose length always
//! equals the entity count, so an entity id indexes every column.  The
//! component set is a closed sum type tagged by [`ComponentKind`]; access
//! pays a linear scan over the columns plus a tag comparison, bounded by the
//! number of distinct kinds, never by the entity count.
//!
//! Exclusive access to a column is enforced statically: readers hold shared
//! borrows of `World`, and every mutation goes through `&mut World`, so two
//! call sites can never alias a column that one of them is writing.

use vstd::prelude::*;

use crate::text::TextComponent;
use crate::transform::TransformComponent;

verus! {

/// A unit of damage capacity, as a plain component example.
#[derive(Clone, Copy, PartialEq, Eq, Structural, Debug)]
pub struct Health(pub i32);

/// A label attached to an entity.
#[derive(Clone, Copy, Debug)]
pub struct Name(pub &'static str);

/// A bare string payload, the simplest drawable content.
#[derive(Debug)]
pub struct Text {
    pub text: String,
}

/// The closed set of component values the store can hold.
pub enum Component {
    Health(Health),
    Name(Name),
    Text(Text),
    TextContent(TextComponent),
    Transform(TransformComponent),
}

/// The tag that identifies a component's column.
#[derive(Clone, Copy, PartialEq, Eq, Structural, Debug)]
pub enum ComponentKind {
    Health,
    Name,
    Text,
    TextContent,
    Transform,
}

/// Errors the store surfaces to its caller.
#[derive(Clone, Copy, PartialEq, Eq, Structural, Debug)]
pub enum WorldError {
    /// The entity id was not produced by `new_entity`: it is at or beyond
    /// the current entity count.
    InvalidEntity,
}

impl Component {
    /// The column this component belongs to.
    pub open spec fn kind(self) -> ComponentKind {
        match self {
            Component::Health(_) => ComponentKind::Health,
            Component::Name(_) => ComponentKind::Name,
            Component::Text(_) => ComponentKind::Text,
            Component::TextContent(_) => ComponentKind::TextContent,
            Component::Transform(_) => ComponentKind::Transform,
        }
    }

    /// Reads the tag of this component.
    pub fn kind_tag(&self) -> (k: ComponentKind)
        ensures
            k == self.kind(),
    {
        match self {
            Component::Health(_) => ComponentKind::Health,
            Component::Name(_) => ComponentKind::Name,
            Component::Text(_) => ComponentKind::Text,
            Component::TextContent(_) => ComponentKind::TextContent,
            Component::Transform(_) => ComponentKind::Transform,
        }
    }
}

/// One column: the tag it stores, and one optional slot per entity.
struct Column {
    kind: ComponentKind,
    slots: Vec<Option<Component>>,
}

/// The component store: an entity counter and one column per component kind
/// that has ever been attached.
pub struct World {
    entities_count: usize,
    component_vecs: Vec<Column>,
}

/// Every column of `cols` has exactly `n` slots.
pub open spec fn columns_complete(
    cols: Map<ComponentKind, Seq<Option<Component>>>,
    n: nat,
) -> bool {
    forall|k: ComponentKind| #[trigger] cols.dom().contains(k) ==> cols[k].len() == n
}

/// The column map after attaching `c` to entity `e` in a store of `n`
/// entities: the column for `c`'s kind is materialized all-absent if it did
/// not exist, and slot `e` is overwritten with `c` either way.
pub open spec fn attach_columns(
    cols: Map<ComponentKind, Seq<Option<Component>>>,
    n: nat,
    e: int,
    c: Component,
) -> Map<ComponentKind, Seq<Option<Component>>> {
    let base = if cols.dom().contains(c.kind()) {
        cols[c.kind()]
    } else {
        Seq::new(n, |i: int| None::<Component>)
    };
    cols.insert(c.kind(), base.update(e, Some(c)))
}

impl World {
    /// The number of entities created so far.
    pub closed spec fn entity_count(self) -> nat {
        self.entities_count as nat
    }

    spec fn cols(self) -> Seq<Column> {
        self.component_vecs@
    }

    spec fn has_kind(self, k: ComponentKind) -> bool {
        exists|i: int| 0 <= i < self.cols().len() && (#[trigger] self.cols()[i]).kind == k
    }

    spec fn col_index(self, k: ComponentKind) -> int {
        choose|i: int| 0 <= i < self.cols().len() && (#[trigger] self.cols()[i]).kind == k
    }

    /// The abstract contents of the store: for each kind that has ever been
    /// attached, the sequence of optional component values, indexed by
    /// entity id.
    pub closed spec fn columns(self) -> Map<ComponentKind, Seq<Option<Component>>> {
        Map::new(
            |k: ComponentKind| self.has_kind(k),
            |k: ComponentKind| self.cols()[self.col_index(k)].slots@,
        )
    }

    /// The store's invariant: columns are in lock-step with the entity
    /// count, kinds are unique, and a slot only ever holds a value of its
    /// column's kind.
    pub closed spec fn wf(self) -> bool {
        &&& forall|i: int|
            0 <= i < self.cols().len() ==> (#[trigger] self.cols()[i]).slots@.len()
                == self.entity_count()
        &&& forall|i: int, j: int|
            0 <= i < self.cols().len() && 0 <= j < self.cols().len() && i != j ==> (
            #[trigger] self.cols()[i]).kind != (#[trigger] self.cols()[j]).kind
        &&& forall|i: int, e: int|
            0 <= i < self.cols().len() && 0 <= e < self.cols()[i].slots@.len() ==> ((
            #[trigger] self.cols()[i].slots@[e]) matches Some(c) ==> c.kind()
                == self.cols()[i].kind)
    }

    /// In a well-formed store, the column standing at index `i` is exactly
    /// the abstract column of its kind.
    proof fn lemma_col_at(self, k: ComponentKind, i: int)
        requires
            self.wf(),
            0 <= i < self.cols().len(),
            self.cols()[i].kind == k,
        ensures
            self.has_kind(k),
            self.col_index(k) == i,
            self.columns().dom().contains(k),
            self.columns()[k] == self.cols()[i].slots@,
    {
        assert(self.has_kind(k));
        let j = self.col_index(k);
        assert(0 <= j < self.cols().len() && self.cols()[j].kind == k);
        assert(j == i);
    }

    /// A fresh store: no entities, no columns.
    pub fn new() -> (w: World)
        ensures
            w.wf(),
            w.entity_count() == 0,
            w.columns() == Map::<ComponentKind, Seq<Option<Component>>>::empty(),
    {
        let w = World { entities_count: 0, component_vecs: Vec::new() };
        proof {
            assert(w.columns() =~= Map::<ComponentKind, Seq<Option<Component>>>::empty());
        }
        w
    }

    /// Creates the next entity: appends an absent slot to every existing
    /// column and returns the next sequential id.
    pub fn new_entity(&mut self) -> (id: usize)
        requires
            old(self).wf(),
            old(self).entity_count() < usize::MAX,
        ensures
            final(self).wf(),
            id == old(self).entity_count(),
            final(self).entity_count() == old(self).entity_count() + 1,
            final(self).columns().dom() == old(self).columns().dom(),
            forall|k: ComponentKind| #[trigger]
                final(self).columns().dom().contains(k) ==> final(self).columns()[k] == old(
                    self,
                ).columns()[k].push(None::<Component>),
    {
        let ghost w0 = *self;
        let id = self.entities_count;
        let n = self.component_vecs.len();
        let mut i: usize = 0;
        while i < n
            invariant
                i <= n,
                n == w0.cols().len(),
                self.entities_count == w0.entities_count,
                self.cols().len() == n,
                forall|j: int|
                    0 <= j < n ==> (#[trigger] self.cols()[j]).kind == w0.cols()[j].kind,
                forall|j: int|
                    0 <= j < i ==> (#[trigger] self.cols()[j]).slots@ == w0.cols()[j].slots@.push(
                        None::<Component>,
                    ),
                forall|j: int|
                    i <= j < n ==> (#[trigger] self.cols()[j]).slots@ == w0.cols()[j].slots@,
            decreases n - i,
        {
            self.component_vecs[i].slots.push(None);
            i += 1;
        }
        self.entities_count = self.entities_count + 1;
        proof {
            assert forall|k: ComponentKind| self.has_kind(k) <==> w0.has_kind(k) by {
                if self.has_kind(k) {
                    let j = choose|j: int|
                        0 <= j < self.cols().len() && (#[trigger] self.cols()[j]).kind == k;
                    assert(w0.cols()[j].kind == k);
                }
                if w0.has_kind(k) {
                    let j = choose|j: int|
                        0 <= j < w0.cols().len() && (#[trigger] w0.cols()[j]).kind == k;
                    assert(self.cols()[j].kind == k);
                }
            }
            assert(self.columns().dom() =~= w0.columns().dom());
            assert forall|k: ComponentKind| #[trigger]
                self.columns().dom().contains(k) implies self.columns()[k]
                == w0.columns()[k].push(None::<Component>) by {
                let j = self.col_index(k);
                assert(0 <= j < self.cols().len() && self.cols()[j].kind == k);
                self.lemma_col_at(k, j);
                w0.lemma_col_at(k, j);
            }
        }
        id
    }

    /// Attaches `component` to `entity`, overwriting any prior value of the
    /// same kind; fails with `InvalidEntity` on an id that `new_entity`
    /// never produced, leaving the store untouched.
    pub fn add_component_to_entity(&mut self, entity: usize, component: Component) -> (r: Result<
        (),
        WorldError,
    >)
        requires
            old(self).wf(),
        ensures
            final(self).wf(),
            final(self).entity_count() == old(self).entity_count(),
            entity < old(self).entity_count() ==> r is Ok && final(self).columns()
                == attach_columns(
                old(self).columns(),
                old(self).entity_count(),
                entity as int,
                component,
            ),
            entity >= old(self).entity_count() ==> r == Result::<(), WorldError>::Err(
                WorldError::InvalidEntity,
            ) && *final(self) == *old(self),
    {
        if entity >= self.entities_count {
            return Err(WorldError::InvalidEntity);
        }
        let ghost w0 = *self;
        let k = component.kind_tag();
        let ghost gc = component;
        let n = self.component_vecs.len();
        let mut i: usize = 0;
        while i < n
            invariant
                i <= n,
                *self == w0,
                w0.wf(),
                entity < w0.entity_count(),
                k == gc.kind(),
                gc == component,
                n == w0.cols().len(),
                forall|j: int| 0 <= j < i ==> (#[trigger] self.cols()[j]).kind != k,
            decreases n - i,
        {
            if self.component_vecs[i].kind == k {
                proof {
                    w0.lemma_col_at(k, i as int);
                    assert(w0.cols()[i as int].slots@.len() == w0.entity_count());
                }
                self.component_vecs[i].slots.set(entity, Some(component));
                proof {
                    assert forall|k2: ComponentKind| self.has_kind(k2) <==> w0.has_kind(
                        k2,
                    ) by {
                        if self.has_kind(k2) {
                            let j = choose|j: int|
                                0 <= j < self.cols().len() && (#[trigger] self.cols()[j]).kind
                                    == k2;
                            assert(w0.cols()[j].kind == k2);
                        }
                        if w0.has_kind(k2) {
                            let j = choose|j: int|
                                0 <= j < w0.cols().len() && (#[trigger] w0.cols()[j]).kind == k2;
                            assert(self.cols()[j].kind == k2);
                        }
                    }
                    self.lemma_col_at(k, i as int);
                    assert forall|k2: ComponentKind| #[trigger]
                        self.columns().dom().contains(k2) && k2 != k implies self.columns()[k2]
                        == w0.columns()[k2] by {
                        let j = self.col_index(k2);
                        assert(0 <= j < self.cols().len() && self.cols()[j].kind == k2);
                        self.lemma_col_at(k2, j);
                        w0.lemma_col_at(k2, j);
                    }
                    assert(self.columns() =~= attach_columns(
                        w0.columns(),
                        w0.entity_count(),
                        entity as int,
                        gc,
                    ));
                }
                return Ok(());
            }
            i += 1;
        }
        // No column for this kind yet: materialize one, absent everywhere
        // but at `entity`.
        let count = self.entities_count;
        let mut slots: Vec<Option<Component>> = Vec::new();
        let mut j: usize = 0;
        while j < count
            invariant
                j <= count,
                slots@.len() == j,
                forall|m: int| 0 <= m < j ==> (#[trigger] slots@[m]) is None,
            decreases count - j,
        {
            slots.push(None);
            j += 1;
        }
        slots.set(entity, Some(component));
        self.component_vecs.push(Column { kind: k, slots });
        proof {
            let ghost w1 = *self;
            let ghost last = w0.cols().len() as int;
            assert(w1.cols().len() == last + 1);
            assert(w1.cols()[last].kind == k);
            assert(forall|j2: int| 0 <= j2 < last ==> w1.cols()[j2] == w0.cols()[j2]);
            assert(!w0.has_kind(k));
            assert(w1.wf()) by {
                assert forall|i2: int, e: int|
                    0 <= i2 < w1.cols().len() && 0 <= e < w1.cols()[i2].slots@.len() implies ((
                #[trigger] w1.cols()[i2].slots@[e]) matches Some(c) ==> c.kind()
                    == w1.cols()[i2].kind) by {
                    if i2 == last {
                        assert(w1.cols()[last].slots@ == Seq::new(
                            w0.entity_count(),
                            |m: int| None::<Component>,
                        ).update(entity as int, Some(gc)));
                    }
                }
            }
            w1.lemma_col_at(k, last);
            assert forall|k2: ComponentKind| #[trigger]
                w1.columns().dom().contains(k2) && k2 != k implies w1.columns()[k2]
                == w0.columns()[k2] by {
                let j2 = w1.col_index(k2);
                assert(0 <= j2 < w1.cols().len() && w1.cols()[j2].kind == k2);
                assert(j2 != last);
                w1.lemma_col_at(k2, j2);
                w0.lemma_col_at(k2, j2);
            }
            assert forall|k2: ComponentKind| #[trigger]
                w0.columns().dom().contains(k2) implies w1.columns().dom().contains(k2) by {
                let j2 = w0.col_index(k2);
                assert(0 <= j2 < w0.cols().len() && w0.cols()[j2].kind == k2);
                assert(w1.cols()[j2].kind == k2);
            }
            assert(w1.cols()[last].slots@ =~= Seq::new(
                w0.entity_count(),
                |m: int| None::<Component>,
            ).update(entity as int, Some(gc)));
            assert(w1.columns() =~= attach_columns(
                w0.columns(),
                w0.entity_count(),
                entity as int,
                gc,
            ));
        }
        Ok(())
    }

    /// Shared access to the full column for `kind`, or `None` if no entity
    /// has ever had a component of that kind attached.
    pub fn borrow_component_vec(&self, kind: ComponentKind) -> (r: Option<
        &Vec<Option<Component>>,
    >)
        requires
            self.wf(),
        ensures
            match r {
                Some(v) => self.columns().dom().contains(kind) && v@ == self.columns()[kind],
                None => !self.columns().dom().contains(kind),
            },
    {
        let n = self.component_vecs.len();
        let mut i: usize = 0;
        while i < n
            invariant
                i <= n,
                self.wf(),
                n == self.cols().len(),
                forall|j: int| 0 <= j < i ==> (#[trigger] self.cols()[j]).kind != kind,
            decreases n - i,
        {
            if self.component_vecs[i].kind == kind {
                proof {
                    self.lemma_col_at(kind, i as int);
                }
                return Some(&self.component_vecs[i].slots);
            }
            i += 1;
        }
        proof {
            if self.has_kind(kind) {
                let j = self.col_index(kind);
                assert(0 <= j < self.cols().len() && self.cols()[j].kind == kind);
            }
        }
        None
    }

    /// Borrows the component of `kind` attached to `entity`: `None` if the
    /// kind has no column, the id is out of range, or the slot is absent.
    pub fn borrow_component(&self, entity: usize, kind: ComponentKind) -> (r: Option<&Component>)
        requires
            self.wf(),
        ensures
            r is Some <==> self.columns().dom().contains(kind) && entity < self.entity_count()
                && self.columns()[kind][entity as int] is Some,
            r matches Some(c) ==> self.columns()[kind][entity as int] == Some(*c),
    {
        proof {
            self.lemma_columns_in_lockstep();
        }
        match self.borrow_component_vec(kind) {
            Some(column) => {
                if entity < column.len() {
                    match &column[entity] {
                        Some(c) => Some(c),
                        None => None,
                    }
                } else {
                    None
                }
            },
            None => None,
        }
    }

    /// Whether `entity` holds a component of kind `k`.
    pub open spec fn has_component_at(self, k: ComponentKind, entity: int) -> bool {
        &&& self.columns().dom().contains(k)
        &&& 0 <= entity < self.columns()[k].len()
        &&& self.columns()[k][entity] is Some
    }

    /// The entities that hold both an `a` and a `b` component, in
    /// increasing order: the frame driver uses this to walk two columns in
    /// lock-step, pairing each text with its transform.
    pub fn entities_with(&self, a: ComponentKind, b: ComponentKind) -> (r: Vec<usize>)
        requires
            self.wf(),
        ensures
            forall|j: int|
                0 <= j < r@.len() ==> self.has_component_at(a, #[trigger] r@[j] as int)
                    && self.has_component_at(b, r@[j] as int),
            forall|j1: int, j2: int| 0 <= j1 < j2 < r@.len() ==> r@[j1] < r@[j2],
            forall|e: int|
                0 <= e < self.entity_count() && self.has_component_at(a, e)
                    && self.has_component_at(b, e) ==> r@.contains(e as usize),
    {
        proof {
            self.lemma_columns_in_lockstep();
        }
        let mut r: Vec<usize> = Vec::new();
        let n = self.entities_count;
        let mut e: usize = 0;
        while e < n
            invariant
                e <= n,
                forall|j: int|
                    0 <= j < r@.len() ==> self.has_component_at(a, #[trigger] r@[j] as int)
                        && self.has_component_at(b, r@[j] as int) && r@[j] < e,
                forall|j1: int, j2: int| 0 <= j1 < j2 < r@.len() ==> r@[j1] < r@[j2],
                forall|e2: int|
                    0 <= e2 < e && self.has_component_at(a, e2) && self.has_component_at(b, e2)
                        ==> r@.contains(e2 as usize),
            decreases n - e,
        {
            let has_a = match self.borrow_component(e, a) {
                Some(_) => true,
                None => false,
            };
            let has_b = match self.borrow_component(e, b) {
                Some(_) => true,
                None => false,
            };
            let ghost r0 = r@;
            if has_a && has_b {
                r.push(e);
            }
            proof {
                assert forall|e2: int|
                    0 <= e2 < e + 1 && self.has_component_at(a, e2) && self.has_component_at(
                        b,
                        e2,
                    ) implies r@.contains(e2 as usize) by {
                    if e2 < e {
                        let j = choose|j: int| 0 <= j < r0.len() && r0[j] == e2 as usize;
                        assert(r@[j] == e2 as usize);
                    } else {
                        assert(r@[r@.len() - 1] == e2 as usize);
                    }
                }
            }
            e += 1;
        }
        r
    }

    /// Every existing column's length equals the current entity count: an
    /// entity id from `new_entity` indexes every column.
    pub proof fn lemma_columns_in_lockstep(self)
        requires
            self.wf(),
        ensures
            columns_complete(self.columns(), self.entity_count()),
    {
        assert forall|k: ComponentKind| #[trigger]
            self.columns().dom().contains(k) implies self.columns()[k].len()
            == self.entity_count() by {
            let j = self.col_index(k);
            assert(0 <= j < self.cols().len() && self.cols()[j].kind == k);
            self.lemma_col_at(k, j);
        }
    }
}

/// Attaching a component and then reading the same entity's slot of the
/// same kind gives back exactly the attached value.
pub proof fn lemma_attach_then_borrow(
    cols: Map<ComponentKind, Seq<Option<Component>>>,
    n: nat,
    e: int,
    c: Component,
)
    requires
        columns_complete(cols, n),
        0 <= e < n,
    ensures
        attach_columns(cols, n, e, c).dom().contains(c.kind()),
        attach_columns(cols, n, e, c)[c.kind()][e] == Some(c),
        columns_complete(attach_columns(cols, n, e, c), n),
{
    let cols2 = attach_columns(cols, n, e, c);
    assert forall|k: ComponentKind| #[trigger] cols2.dom().contains(k) implies cols2[k].len()
        == n by {
        if k != c.kind() {
            assert(cols.dom().contains(k));
        }
    }
}

/// Attaching twice to the same entity overwrites: the second value stands,
/// and no duplicate slot is created.
pub proof fn lemma_attach_overwrites(
    cols: Map<ComponentKind, Seq<Option<Component>>>,
    n: nat,
    e: int,
    c1: Component,
    c2: Component,
)
    requires
        columns_complete(cols, n),
        0 <= e < n,
        c1.kind() == c2.kind(),
    ensures
        attach_columns(attach_columns(cols, n, e, c1), n, e, c2) == attach_columns(cols, n, e, c2),
        attach_columns(attach_columns(cols, n, e, c1), n, e, c2)[c2.kind()].len() == n,
{
    let once = attach_columns(cols, n, e, c1);
    let twice = attach_columns(once, n, e, c2);
    let direct = attach_columns(cols, n, e, c2);
    assert(twice[c2.kind()] =~= direct[c2.kind()]);
    assert(twice =~~= direct);
}

/// Attaching only ever adds the attached component's kind to the set of
/// existing columns; together with `new` starting from the empty map and
/// `new_entity` preserving the domain, a column for a kind exists exactly
/// when some entity has received an attachment of that kind.
pub proof fn lemma_attach_dom(
    cols: Map<ComponentKind, Seq<Option<Component>>>,
    n: nat,
    e: int,
    c: Component,
)
    ensures
        attach_columns(cols, n, e, c).dom() == cols.dom().insert(c.kind()),
{
    assert(attach_columns(cols, n, e, c).dom() =~= cols.dom().insert(c.kind()));
}

} // verus!
