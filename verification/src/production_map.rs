//! Saving production maps: the rules that protect order numbers, and the
//! saved maps as a table keyed by map id.
//!
//! An order number, once a zakaz map has one, cannot change; and no two
//! different maps may carry the same order number. A batch of maps is saved
//! whole or not at all.
use vstd::prelude::*;

use crate::api::AdminError;
use crate::api::AdminErrorResponse;
use crate::order_templates::CalculateOrderTemplate;
use crate::text::{chars_eq, chars_of, has_prefix, trim, trim_str};

verus! {

/// The fields of a production map that the save rules read.
#[derive(Debug)]
pub struct ProductionMapHeader {
    pub id: String,
    pub product_code: String,
    pub title: String,
    pub order_number: String,
}

/// The text of a production map header.
pub struct MapHeaderView {
    pub id: Seq<char>,
    pub product_code: Seq<char>,
    pub title: Seq<char>,
    pub order_number: Seq<char>,
}

impl View for ProductionMapHeader {
    type V = MapHeaderView;

    open spec fn view(&self) -> MapHeaderView {
        MapHeaderView {
            id: self.id@,
            product_code: self.product_code@,
            title: self.title@,
            order_number: self.order_number@,
        }
    }
}

impl ProductionMapHeader {
    /// A copy of the header.
    pub fn duplicate(&self) -> (r: Self)
        ensures
            r@ == self@,
    {
        ProductionMapHeader {
            id: self.id.clone(),
            product_code: self.product_code.clone(),
            title: self.title.clone(),
            order_number: self.order_number.clone(),
        }
    }
}

/// The views of a list of headers.
pub open spec fn headers_view(v: Seq<ProductionMapHeader>) -> Seq<MapHeaderView> {
    v.map_values(|h: ProductionMapHeader| h@)
}

/// The key a map is saved under: its id, trimmed.
pub open spec fn map_key(h: MapHeaderView) -> Seq<char> {
    trim(h.id)
}

/// Whether two maps are the same zakaz: same id, title and product code,
/// each compared trimmed.
pub open spec fn same_zakaz(a: MapHeaderView, b: MapHeaderView) -> bool {
    &&& trim(a.id) == trim(b.id)
    &&& trim(a.title) == trim(b.title)
    &&& trim(a.product_code) == trim(b.product_code)
}

fn trimmed_eq(a: &str, b: &str) -> (r: bool)
    ensures
        r == (trim(a@) == trim(b@)),
{
    let x = trim_str(a);
    let y = trim_str(b);
    chars_eq(x.as_slice(), y.as_slice())
}

/// Whether `next` is a new save of the zakaz `existing`.
pub fn is_same_zakaz(existing: &ProductionMapHeader, next: &ProductionMapHeader) -> (r: bool)
    ensures
        r == same_zakaz(existing@, next@),
{
    trimmed_eq(existing.id.as_str(), next.id.as_str()) && trimmed_eq(
        existing.title.as_str(),
        next.title.as_str(),
    ) && trimmed_eq(existing.product_code.as_str(), next.product_code.as_str())
}

/// Errors of the production map service.
#[derive(PartialEq, Eq, Structural, Clone, Copy, Debug)]
pub enum ProductionMapError {
    DuplicateOrderNumber,
    OrderNumberImmutable,
    MoveNotAllowed,
    QueueActionNotAllowed,
    PreviousStageNotCompleted,
    ApparatusNotAssigned,
    LaminatsiyaRubberTooLarge,
    MapNotFound,
    StoreFailed,
}

/// Status and message of the admin error that answers a production map
/// error.
pub open spec fn production_map_error_parts(e: ProductionMapError) -> (u16, Seq<char>) {
    match e {
        ProductionMapError::DuplicateOrderNumber => (400, "duplicate_order_number"@),
        ProductionMapError::OrderNumberImmutable => (400, "order_number_immutable"@),
        ProductionMapError::MoveNotAllowed => (400, "move_not_allowed"@),
        ProductionMapError::QueueActionNotAllowed => (400, "queue_action_not_allowed"@),
        ProductionMapError::PreviousStageNotCompleted => (400, "previous_stage_not_completed"@),
        ProductionMapError::ApparatusNotAssigned => (400, "apparatus_not_assigned"@),
        ProductionMapError::LaminatsiyaRubberTooLarge => (400, "laminatsiya_rubber_too_large"@),
        ProductionMapError::MapNotFound => (404, "map_not_found"@),
        ProductionMapError::StoreFailed => (500, "store failed"@),
    }
}

fn admin_error(status: u16, message: &str) -> (e: AdminError)
    ensures
        e.status == status,
        e.body.error@ == message@,
{
    AdminError { status, body: AdminErrorResponse::new(message) }
}

/// The admin error that answers a production map error.
pub fn production_map_error(error: ProductionMapError) -> (e: AdminError)
    ensures
        e.status == production_map_error_parts(error).0,
        e.body.error@ == production_map_error_parts(error).1,
{
    match error {
        ProductionMapError::DuplicateOrderNumber => admin_error(400, "duplicate_order_number"),
        ProductionMapError::OrderNumberImmutable => admin_error(400, "order_number_immutable"),
        ProductionMapError::MoveNotAllowed => admin_error(400, "move_not_allowed"),
        ProductionMapError::QueueActionNotAllowed => admin_error(400, "queue_action_not_allowed"),
        ProductionMapError::PreviousStageNotCompleted => admin_error(
            400,
            "previous_stage_not_completed",
        ),
        ProductionMapError::ApparatusNotAssigned => admin_error(400, "apparatus_not_assigned"),
        ProductionMapError::LaminatsiyaRubberTooLarge => admin_error(
            400,
            "laminatsiya_rubber_too_large",
        ),
        ProductionMapError::MapNotFound => admin_error(404, "map_not_found"),
        ProductionMapError::StoreFailed => admin_error(500, "store failed"),
    }
}

/// Whether saving `m` would change the order number of a saved zakaz map:
/// its id starts with `zakaz-`, both it and the saved map under its key have
/// an order number, and the two differ.
pub open spec fn changes_order_number(existing: Option<MapHeaderView>, m: MapHeaderView) -> bool {
    &&& has_prefix(trim(m.id), "zakaz-"@)
    &&& trim(m.order_number).len() > 0
    &&& existing matches Some(e) && trim(e.order_number).len() > 0 && trim(e.order_number) != trim(
        m.order_number,
    )
}

/// `OrderNumberImmutable` when saving `map` over `existing`, the map saved
/// under `map`'s key, would change a zakaz map's order number.
pub fn reject_order_number_immutable(
    existing: Option<&ProductionMapHeader>,
    map: &ProductionMapHeader,
) -> (r: Result<(), ProductionMapError>)
    ensures
        r is Err <==> changes_order_number(
            match existing {
                Some(e) => Some(e@),
                None => None,
            },
            map@,
        ),
        r is Err ==> r == Err::<(), ProductionMapError>(ProductionMapError::OrderNumberImmutable),
{
    let id = trim_str(map.id.as_str());
    let zakaz = chars_of("zakaz-");
    if id.len() < zakaz.len() {
        return Ok(());
    }
    let mut i: usize = 0;
    while i < zakaz.len()
        invariant
            i <= zakaz@.len() <= id@.len(),
            zakaz@ == "zakaz-"@,
            id@ == trim(map.id@),
            forall|j: int| 0 <= j < i ==> id@[j] == zakaz@[j],
        decreases zakaz@.len() - i,
    {
        if id[i] != zakaz[i] {
            assert(id@.subrange(0, zakaz@.len() as int)[i as int] != zakaz@[i as int]);
            return Ok(());
        }
        i = i + 1;
    }
    assert(id@.subrange(0, zakaz@.len() as int) =~= zakaz@);
    let order_number = trim_str(map.order_number.as_str());
    if order_number.len() == 0 {
        return Ok(());
    }
    match existing {
        None => Ok(()),
        Some(e) => {
            let existing_number = trim_str(e.order_number.as_str());
            if existing_number.len() > 0 && !chars_eq(
                existing_number.as_slice(),
                order_number.as_slice(),
            ) {
                Err(ProductionMapError::OrderNumberImmutable)
            } else {
                Ok(())
            }
        },
    }
}

/// Whether a saved map other than the zakaz `m` itself already carries
/// `m`'s order number.
pub open spec fn order_number_taken(saved: Seq<MapHeaderView>, m: MapHeaderView) -> bool {
    &&& trim(m.order_number).len() > 0
    &&& exists|i: int|
        0 <= i < saved.len() && trim((#[trigger] saved[i]).order_number) == trim(m.order_number)
            && !same_zakaz(saved[i], m)
}

/// `DuplicateOrderNumber` when a saved map other than the zakaz `map`
/// itself already carries `map`'s order number.
pub fn reject_duplicate_order_number(saved: &[ProductionMapHeader], map: &ProductionMapHeader) -> (r:
    Result<(), ProductionMapError>)
    ensures
        r is Err <==> order_number_taken(headers_view(saved@), map@),
        r is Err ==> r == Err::<(), ProductionMapError>(ProductionMapError::DuplicateOrderNumber),
{
    let order_number = trim_str(map.order_number.as_str());
    if order_number.len() == 0 {
        return Ok(());
    }
    let ghost hv = headers_view(saved@);
    let mut i: usize = 0;
    while i < saved.len()
        invariant
            i <= saved@.len(),
            hv == headers_view(saved@),
            order_number@ == trim(map.order_number@),
            order_number@.len() > 0,
            forall|j: int|
                0 <= j < i ==> !(trim((#[trigger] hv[j]).order_number) == trim(map.order_number@)
                    && !same_zakaz(hv[j], map@)),
        decreases saved@.len() - i,
    {
        let number = trim_str(saved[i].order_number.as_str());
        assert(hv[i as int] == saved@[i as int]@);
        if chars_eq(number.as_slice(), order_number.as_slice()) && !is_same_zakaz(&saved[i], map) {
            assert(trim(hv[i as int].order_number) == trim(map.order_number@) && !same_zakaz(
                hv[i as int],
                map@,
            ));
            return Err(ProductionMapError::DuplicateOrderNumber);
        }
        i = i + 1;
    }
    Ok(())
}

/// Whether a template saved with a map opens a quick template as a new
/// order: the template names a source map, that source is another map, and
/// the map is a sheet order map (`sheet_order_map`, decided from the map's
/// nodes).
pub open spec fn quick_template_order_clone(map_id: Seq<char>, source_map_id: Seq<char>, sheet_order_map: bool) -> bool {
    trim(source_map_id).len() > 0 && trim(source_map_id) != trim(map_id) && sheet_order_map
}

/// Whether saving `template` with `map` opens a quick template as an order.
pub fn is_quick_template_order_clone<N>(
    map: &ProductionMapHeader,
    template: &CalculateOrderTemplate<N>,
    sheet_order_map: bool,
) -> (r: bool)
    ensures
        r == quick_template_order_clone(map.id@, template.source_map_id@, sheet_order_map),
{
    let source = trim_str(template.source_map_id.as_str());
    let id = trim_str(map.id.as_str());
    source.len() > 0 && !chars_eq(source.as_slice(), id.as_slice()) && sheet_order_map
}

/// What becomes of the template saved with a map.
#[derive(Debug)]
pub enum TemplatePlan<N> {
    /// No template came with the map.
    NoTemplate,
    /// A quick template opened as an order: it is not saved, only handed to
    /// the order integrations.
    Integration(CalculateOrderTemplate<N>),
    /// The template is saved, linked to the saved map.
    Save(CalculateOrderTemplate<N>),
}

/// The plan for the template saved with a map whose saved id is
/// `saved_map_id`: none without a template; the template as is for the
/// integrations when it opens a quick template as an order; else the
/// template linked to the map (its `source_map_id` set to the trimmed saved
/// id, every other field kept).
pub fn plan_template<N>(
    template: Option<CalculateOrderTemplate<N>>,
    opens_quick_template_as_order: bool,
    saved_map_id: &str,
) -> (r: TemplatePlan<N>)
    ensures
        match template {
            None => r is NoTemplate,
            Some(t) => if opens_quick_template_as_order {
                r matches TemplatePlan::Integration(x) && x == t
            } else {
                r matches TemplatePlan::Save(x) && x.source_map_id@ == trim(saved_map_id@) && x == (
                CalculateOrderTemplate { source_map_id: x.source_map_id, ..t })
            },
        },
{
    match template {
        None => TemplatePlan::NoTemplate,
        Some(mut t) => {
            if opens_quick_template_as_order {
                TemplatePlan::Integration(t)
            } else {
                t.source_map_id = crate::text::trimmed_string(saved_map_id);
                TemplatePlan::Save(t)
            }
        },
    }
}

/// Whether saving a map with an order starts the order integrations (the
/// order sheet and the ERP work order): only for a new map that is a sheet
/// order map and that has a template, saved or handed on.
pub fn starts_order_integrations(previous_existed: bool, sheet_order_map: bool, has_template: bool) -> (r:
    bool)
    ensures
        r == (!previous_existed && sheet_order_map && has_template),
{
    !previous_existed && sheet_order_map && has_template
}

// ---------------------------------------------------------------------------
// The saved maps
// ---------------------------------------------------------------------------

/// One saved map and the key it is saved under.
#[derive(Debug)]
pub struct SavedMap {
    pub key: String,
    pub header: ProductionMapHeader,
}

/// The saved production maps, one per key.
#[derive(Debug)]
pub struct ProductionMapTable {
    rows: Vec<SavedMap>,
}

/// Whether the rows are keyed by their trimmed ids, each key once.
pub open spec fn rows_well_keyed(rows: Seq<SavedMap>) -> bool {
    &&& forall|i: int| 0 <= i < rows.len() ==> (#[trigger] rows[i]).key@ == map_key(rows[i].header@)
    &&& forall|i: int, j: int|
        0 <= i < rows.len() && 0 <= j < rows.len() && i != j ==> (#[trigger] rows[i]).key@
            != (#[trigger] rows[j]).key@
}

/// Whether some row has key `k`.
pub open spec fn has_row(rows: Seq<SavedMap>, k: Seq<char>) -> bool {
    exists|i: int| 0 <= i < rows.len() && (#[trigger] rows[i]).key@ == k
}

/// The saved maps by key that the rows stand for.
pub open spec fn rows_map(rows: Seq<SavedMap>) -> Map<Seq<char>, MapHeaderView> {
    Map::new(
        |k: Seq<char>| has_row(rows, k),
        |k: Seq<char>| rows[choose|i: int| 0 <= i < rows.len() && (#[trigger] rows[i]).key@ == k].header@,
    )
}

/// The saved map under key `k`, if any.
pub open spec fn saved_under(m: Map<Seq<char>, MapHeaderView>, k: Seq<char>) -> Option<MapHeaderView> {
    if m.contains_key(k) {
        Some(m[k])
    } else {
        None
    }
}

/// Whether a saved map other than the zakaz `h` carries `h`'s order number.
pub open spec fn order_number_taken_in(m: Map<Seq<char>, MapHeaderView>, h: MapHeaderView) -> bool {
    &&& trim(h.order_number).len() > 0
    &&& exists|k: Seq<char>|
        m.contains_key(k) && trim((#[trigger] m[k]).order_number) == trim(h.order_number)
            && !same_zakaz(m[k], h)
}

/// The outcome of saving `h` when the saved maps are `m`: the order number
/// rules are checked in turn, and the first broken one is the error.
pub open spec fn put_check(m: Map<Seq<char>, MapHeaderView>, h: MapHeaderView) -> Result<(), ProductionMapError> {
    if changes_order_number(saved_under(m, map_key(h)), h) {
        Err(ProductionMapError::OrderNumberImmutable)
    } else if order_number_taken_in(m, h) {
        Err(ProductionMapError::DuplicateOrderNumber)
    } else {
        Ok(())
    }
}

/// The saved maps after saving the maps `hs` one after another, or the
/// error of the first map that cannot be saved.
pub open spec fn batch_outcome(m: Map<Seq<char>, MapHeaderView>, hs: Seq<MapHeaderView>) -> Result<
    Map<Seq<char>, MapHeaderView>,
    ProductionMapError,
>
    decreases hs.len(),
{
    if hs.len() == 0 {
        Ok(m)
    } else {
        match put_check(m, hs[0]) {
            Err(e) => Err(e),
            Ok(_) => batch_outcome(m.insert(map_key(hs[0]), hs[0]), hs.drop_first()),
        }
    }
}

/// The saved maps after storing the maps `hs` one after another, unchecked.
pub open spec fn stored_all(m: Map<Seq<char>, MapHeaderView>, hs: Seq<MapHeaderView>) -> Map<
    Seq<char>,
    MapHeaderView,
>
    decreases hs.len(),
{
    if hs.len() == 0 {
        m
    } else {
        stored_all(m.insert(map_key(hs[0]), hs[0]), hs.drop_first())
    }
}

proof fn lemma_rows_map_at(rows: Seq<SavedMap>, i: int)
    requires
        rows_well_keyed(rows),
        0 <= i < rows.len(),
    ensures
        rows_map(rows).contains_key(rows[i].key@),
        rows_map(rows)[rows[i].key@] == rows[i].header@,
{
    let k = rows[i].key@;
    assert(has_row(rows, k));
    let j = choose|j: int| 0 <= j < rows.len() && (#[trigger] rows[j]).key@ == k;
    assert(j == i);
}

/// The saved maps `m` with what was saved under key `k` before put back:
/// the map `previous` under its own key, or nothing under `k`.
pub open spec fn restored(
    m: Map<Seq<char>, MapHeaderView>,
    previous: Option<MapHeaderView>,
    k: Seq<char>,
) -> Map<Seq<char>, MapHeaderView> {
    match previous {
        Some(p) => m.insert(map_key(p), p),
        None => m.remove(k),
    }
}

/// Whether every saved map sits under its own trimmed id.
pub open spec fn keyed(m: Map<Seq<char>, MapHeaderView>) -> bool {
    forall|k: Seq<char>| #[trigger] m.contains_key(k) ==> map_key(m[k]) == k
}

proof fn lemma_rows_map_keyed(rows: Seq<SavedMap>)
    requires
        rows_well_keyed(rows),
    ensures
        keyed(rows_map(rows)),
{
    assert forall|k: Seq<char>| #[trigger] rows_map(rows).contains_key(k) implies map_key(
        rows_map(rows)[k],
    ) == k by {
        let a = choose|a: int| 0 <= a < rows.len() && (#[trigger] rows[a]).key@ == k;
        lemma_rows_map_at(rows, a);
    }
}

proof fn lemma_taken_rows(rows: Seq<SavedMap>, h: MapHeaderView)
    requires
        rows_well_keyed(rows),
    ensures
        order_number_taken_in(rows_map(rows), h) == order_number_taken(
            rows.map_values(|r: SavedMap| r.header@),
            h,
        ),
{
    let hv = rows.map_values(|r: SavedMap| r.header@);
    let m = rows_map(rows);
    if order_number_taken_in(m, h) {
        let k = choose|k: Seq<char>|
            m.contains_key(k) && trim((#[trigger] m[k]).order_number) == trim(h.order_number)
                && !same_zakaz(m[k], h);
        let i = choose|i: int| 0 <= i < rows.len() && (#[trigger] rows[i]).key@ == k;
        lemma_rows_map_at(rows, i);
        assert(hv[i] == rows[i].header@);
        assert(order_number_taken(hv, h));
    }
    if order_number_taken(hv, h) {
        let i = choose|i: int|
            0 <= i < hv.len() && trim((#[trigger] hv[i]).order_number) == trim(h.order_number)
                && !same_zakaz(hv[i], h);
        lemma_rows_map_at(rows, i);
        assert(m[rows[i].key@] == hv[i]);
        assert(order_number_taken_in(m, h));
    }
}

impl ProductionMapTable {
    #[verifier::type_invariant]
    spec fn well_keyed(self) -> bool {
        rows_well_keyed(self.rows@)
    }

    /// The saved maps, by key.
    pub closed spec fn view(&self) -> Map<Seq<char>, MapHeaderView> {
        rows_map(self.rows@)
    }

    /// No saved maps.
    pub fn new() -> (r: Self)
        ensures
            r.view() == Map::<Seq<char>, MapHeaderView>::empty(),
            keyed(r.view()),
    {
        let r = ProductionMapTable { rows: Vec::new() };
        assert(r.view() =~= Map::<Seq<char>, MapHeaderView>::empty());
        r
    }

    fn index_of(&self, key: &[char]) -> (r: Option<usize>)
        ensures
            match r {
                Some(i) => i < self.rows@.len() && self.rows@[i as int].key@ == key@,
                None => !has_row(self.rows@, key@),
            },
    {
        let mut i: usize = 0;
        while i < self.rows.len()
            invariant
                i <= self.rows@.len(),
                forall|j: int| 0 <= j < i ==> (#[trigger] self.rows@[j]).key@ != key@,
            decreases self.rows@.len() - i,
        {
            let k = chars_of(self.rows[i].key.as_str());
            if chars_eq(k.as_slice(), key) {
                return Some(i);
            }
            i = i + 1;
        }
        None
    }

    /// The saved map under `id` (trimmed), if any.
    pub fn get(&self, id: &str) -> (r: Option<ProductionMapHeader>)
        ensures
            match r {
                Some(h) => self.view().contains_key(trim(id@)) && self.view()[trim(id@)] == h@,
                None => !self.view().contains_key(trim(id@)),
            },
    {
        proof {
            use_type_invariant(self);
        }
        let k = trim_str(id);
        match self.index_of(k.as_slice()) {
            Some(i) => {
                proof {
                    lemma_rows_map_at(self.rows@, i as int);
                }
                Some(self.rows[i].header.duplicate())
            },
            None => None,
        }
    }

    fn headers(&self) -> (r: Vec<ProductionMapHeader>)
        ensures
            headers_view(r@) == self.rows@.map_values(|s: SavedMap| s.header@),
    {
        let mut out: Vec<ProductionMapHeader> = Vec::new();
        let mut i: usize = 0;
        while i < self.rows.len()
            invariant
                i <= self.rows@.len(),
                headers_view(out@) == self.rows@.map_values(|s: SavedMap| s.header@).take(i as int),
            decreases self.rows@.len() - i,
        {
            let ghost before = headers_view(out@);
            out.push(self.rows[i].header.duplicate());
            assert(headers_view(out@) =~= before.push(self.rows@[i as int].header@));
            assert(self.rows@.map_values(|s: SavedMap| s.header@).take(i + 1) =~= self.rows@.map_values(
                |s: SavedMap| s.header@,
            ).take(i as int).push(self.rows@[i as int].header@));
            i = i + 1;
        }
        assert(self.rows@.map_values(|s: SavedMap| s.header@).take(self.rows@.len() as int)
            =~= self.rows@.map_values(|s: SavedMap| s.header@));
        out
    }

    /// Saves `map` under its trimmed id, with no check.
    fn store(&mut self, map: ProductionMapHeader)
        ensures
            final(self).view() == old(self).view().insert(map_key(map@), map@),
    {
        proof {
            use_type_invariant(&*self);
        }
        let ghost m = self.view();
        let k = trim_str(map.id.as_str());
        let found = self.index_of(k.as_slice());
        let key = crate::text::string_of(k.as_slice());
        let row = SavedMap { key, header: map };
        let ghost old_rows = self.rows@;
        let mut rows: Vec<SavedMap> = Vec::new();
        std::mem::swap(&mut rows, &mut self.rows);
        assert(rows@ == old_rows);
        match found {
            Some(i) => {
                rows.set(i, row);
                proof {
                    let nr = rows@;
                    assert forall|j: int| 0 <= j < nr.len() implies (#[trigger] nr[j]).key@ == map_key(
                        nr[j].header@,
                    ) by {
                        if j != i {
                            assert(nr[j] == old_rows[j]);
                        }
                    }
                    assert forall|a: int, b: int|
                        0 <= a < nr.len() && 0 <= b < nr.len() && a != b implies (#[trigger] nr[a]).key@
                        != (#[trigger] nr[b]).key@ by {
                        if a != i {
                            assert(nr[a] == old_rows[a]);
                        }
                        if b != i {
                            assert(nr[b] == old_rows[b]);
                        }
                        assert(old_rows[i as int].key@ == nr[i as int].key@);
                    }
                    assert(rows_well_keyed(nr));
                    let target = m.insert(map_key(map@), map@);
                    assert forall|kk: Seq<char>| #[trigger] rows_map(nr).contains_key(kk) == target.contains_key(kk)
                        by {
                        if has_row(nr, kk) {
                            let a = choose|a: int| 0 <= a < nr.len() && (#[trigger] nr[a]).key@ == kk;
                            if a != i {
                                assert(nr[a] == old_rows[a]);
                                lemma_rows_map_at(old_rows, a);
                            }
                        }
                        if m.contains_key(kk) {
                            let a = choose|a: int| 0 <= a < old_rows.len() && (#[trigger] old_rows[a]).key@ == kk;
                            if a != i {
                                assert(nr[a] == old_rows[a]);
                            } else {
                                assert(old_rows[a].key@ == k@);
                            }
                            assert(nr[a].key@ == kk);
                            assert(has_row(nr, kk));
                        }
                        if kk == map_key(map@) {
                            assert(nr[i as int].key@ == kk);
                            assert(has_row(nr, kk));
                        }
                    }
                    assert forall|kk: Seq<char>| #[trigger] rows_map(nr).contains_key(kk) implies rows_map(nr)[kk]
                        == target[kk] by {
                        let a = choose|a: int| 0 <= a < nr.len() && (#[trigger] nr[a]).key@ == kk;
                        lemma_rows_map_at(nr, a);
                        if a != i {
                            assert(nr[a] == old_rows[a]);
                            lemma_rows_map_at(old_rows, a);
                        }
                    }
                    assert(rows_map(nr) =~= target);
                }
            },
            None => {
                rows.push(row);
                proof {
                    let nr = rows@;
                    assert(nr == old_rows.push(nr[nr.len() - 1]));
                    assert forall|j: int| 0 <= j < nr.len() implies (#[trigger] nr[j]).key@ == map_key(
                        nr[j].header@,
                    ) by {
                        if j < old_rows.len() {
                            assert(nr[j] == old_rows[j]);
                        }
                    }
                    assert forall|a: int, b: int|
                        0 <= a < nr.len() && 0 <= b < nr.len() && a != b implies (#[trigger] nr[a]).key@
                        != (#[trigger] nr[b]).key@ by {
                        if a < old_rows.len() {
                            assert(nr[a] == old_rows[a]);
                        }
                        if b < old_rows.len() {
                            assert(nr[b] == old_rows[b]);
                        }
                    }
                    assert(rows_well_keyed(nr));
                    let target = m.insert(map_key(map@), map@);
                    let last = (nr.len() - 1) as int;
                    assert forall|kk: Seq<char>| #[trigger] rows_map(nr).contains_key(kk) == target.contains_key(kk)
                        by {
                        if has_row(nr, kk) {
                            let a = choose|a: int| 0 <= a < nr.len() && (#[trigger] nr[a]).key@ == kk;
                            if a < old_rows.len() {
                                assert(nr[a] == old_rows[a]);
                                lemma_rows_map_at(old_rows, a);
                            }
                        }
                        if m.contains_key(kk) {
                            let a = choose|a: int| 0 <= a < old_rows.len() && (#[trigger] old_rows[a]).key@ == kk;
                            assert(nr[a] == old_rows[a]);
                            assert(nr[a].key@ == kk);
                            assert(has_row(nr, kk));
                        }
                        if kk == map_key(map@) {
                            assert(nr[last].key@ == kk);
                            assert(has_row(nr, kk));
                        }
                    }
                    assert forall|kk: Seq<char>| #[trigger] rows_map(nr).contains_key(kk) implies rows_map(nr)[kk]
                        == target[kk] by {
                        let a = choose|a: int| 0 <= a < nr.len() && (#[trigger] nr[a]).key@ == kk;
                        lemma_rows_map_at(nr, a);
                        if a < old_rows.len() {
                            assert(nr[a] == old_rows[a]);
                            lemma_rows_map_at(old_rows, a);
                        }
                    }
                    assert(rows_map(nr) =~= target);
                }
            },
        }
        self.rows = rows;
    }

    /// Saves `map` under its trimmed id, replacing the map saved there.
    /// Refused, with nothing changed, when it would change a zakaz map's
    /// order number (`OrderNumberImmutable`) or when another map carries its
    /// order number (`DuplicateOrderNumber`).
    pub fn put_map(&mut self, map: ProductionMapHeader) -> (r: Result<(), ProductionMapError>)
        ensures
            r == put_check(old(self).view(), map@),
            r is Ok ==> final(self).view() == old(self).view().insert(map_key(map@), map@),
            r is Err ==> final(self).view() == old(self).view(),
            keyed(final(self).view()),
    {
        proof {
            use_type_invariant(&*self);
            lemma_rows_map_keyed(self.rows@);
        }
        let ghost m = self.view();
        let k = trim_str(map.id.as_str());
        let found = self.index_of(k.as_slice());
        let existing: Option<&ProductionMapHeader> = match found {
            Some(i) => Some(&self.rows[i].header),
            None => None,
        };
        proof {
            match found {
                Some(i) => {
                    lemma_rows_map_at(self.rows@, i as int);
                },
                None => {},
            }
            assert(saved_under(m, map_key(map@)) == match existing {
                Some(e) => Some(e@),
                None => None::<MapHeaderView>,
            });
        }
        match reject_order_number_immutable(existing, &map) {
            Err(e) => {
                return Err(e);
            },
            Ok(_) => {},
        }
        let saved = self.headers();
        proof {
            lemma_taken_rows(self.rows@, map@);
        }
        match reject_duplicate_order_number(saved.as_slice(), &map) {
            Err(e) => {
                return Err(e);
            },
            Ok(_) => {},
        }
        self.store(map);
        proof {
            use_type_invariant(&*self);
            lemma_rows_map_keyed(self.rows@);
        }
        Ok(())
    }

    /// A copy of the table.
    pub fn duplicate(&self) -> (r: Self)
        ensures
            r.view() == self.view(),
    {
        proof {
            use_type_invariant(self);
        }
        let mut out: Vec<SavedMap> = Vec::new();
        let mut i: usize = 0;
        while i < self.rows.len()
            invariant
                i <= self.rows@.len(),
                out@.len() == i,
                rows_well_keyed(self.rows@),
                forall|j: int|
                    0 <= j < i ==> (#[trigger] out@[j]).key@ == self.rows@[j].key@ && out@[j].header@
                        == self.rows@[j].header@,
            decreases self.rows@.len() - i,
        {
            let row = SavedMap {
                key: self.rows[i].key.clone(),
                header: self.rows[i].header.duplicate(),
            };
            out.push(row);
            i = i + 1;
        }
        let ghost rs = self.rows@;
        let ghost os = out@;
        assert(rows_well_keyed(os)) by {
            assert forall|a: int, b: int|
                0 <= a < os.len() && 0 <= b < os.len() && a != b implies (#[trigger] os[a]).key@
                != (#[trigger] os[b]).key@ by {
                assert(rs[a].key@ != rs[b].key@);
            }
        }
        assert forall|kk: Seq<char>| #[trigger] rows_map(os).contains_key(kk) == rows_map(rs).contains_key(kk)
            by {
            if has_row(os, kk) {
                let a = choose|a: int| 0 <= a < os.len() && (#[trigger] os[a]).key@ == kk;
                assert(rs[a].key@ == kk);
            }
            if has_row(rs, kk) {
                let a = choose|a: int| 0 <= a < rs.len() && (#[trigger] rs[a]).key@ == kk;
                assert(os[a].key@ == kk);
            }
        }
        assert forall|kk: Seq<char>| #[trigger] rows_map(os).contains_key(kk) implies rows_map(os)[kk]
            == rows_map(rs)[kk] by {
            let a = choose|a: int| 0 <= a < os.len() && (#[trigger] os[a]).key@ == kk;
            lemma_rows_map_at(os, a);
            assert(rs[a].key@ == kk);
            lemma_rows_map_at(rs, a);
        }
        assert(rows_map(os) =~= rows_map(rs));
        ProductionMapTable { rows: out }
    }

    /// Saves the maps one after another, each checked against the maps saved
    /// before it, the earlier maps of the batch included. When one is
    /// refused, the batch fails with its error and nothing is saved.
    pub fn put_maps_batch(&mut self, maps: &[ProductionMapHeader]) -> (r: Result<(), ProductionMapError>)
        ensures
            match batch_outcome(old(self).view(), headers_view(maps@)) {
                Ok(m) => r is Ok && final(self).view() == m,
                Err(e) => r == Err::<(), ProductionMapError>(e) && final(self).view() == old(
                    self,
                ).view(),
            },
            keyed(final(self).view()),
    {
        proof {
            use_type_invariant(&*self);
            lemma_rows_map_keyed(self.rows@);
        }
        let ghost start = self.view();
        let ghost hs = headers_view(maps@);
        let mut work = self.duplicate();
        assert(hs.subrange(0, hs.len() as int) =~= hs);
        let mut i: usize = 0;
        while i < maps.len()
            invariant
                i <= maps@.len(),
                hs == headers_view(maps@),
                hs.len() == maps@.len(),
                self.view() == start,
                keyed(start),
                batch_outcome(start, hs) == batch_outcome(work.view(), hs.subrange(i as int, hs.len() as int)),
            decreases maps@.len() - i,
        {
            let ghost before = work.view();
            let ghost rest = hs.subrange(i as int, hs.len() as int);
            assert(rest[0] == maps@[i as int]@);
            assert(rest.drop_first() =~= hs.subrange(i + 1, hs.len() as int));
            match work.put_map(maps[i].duplicate()) {
                Err(e) => {
                    return Err(e);
                },
                Ok(_) => {},
            }
            i = i + 1;
        }
        assert(hs.subrange(i as int, hs.len() as int) =~= Seq::<MapHeaderView>::empty());
        proof {
            use_type_invariant(&work);
            lemma_rows_map_keyed(work.rows@);
        }
        *self = work;
        Ok(())
    }

    /// Puts back what was saved under `map_id` (trimmed) before a save:
    /// the map `previous` when there was one, else nothing under that key.
    pub fn restore_map(&mut self, previous: Option<ProductionMapHeader>, map_id: &str)
        ensures
            final(self).view() == restored(
                old(self).view(),
                match previous {
                    Some(h) => Some(h@),
                    None => None,
                },
                trim(map_id@),
            ),
            keyed(final(self).view()),
    {
        match previous {
            Some(h) => {
                self.store(h);
                proof {
                    use_type_invariant(&*self);
                    lemma_rows_map_keyed(self.rows@);
                }
            },
            None => self.delete_map(map_id),
        }
    }

    /// Removes the map saved under `map_id` (trimmed), if any.
    pub fn delete_map(&mut self, map_id: &str)
        ensures
            final(self).view() == old(self).view().remove(trim(map_id@)),
            keyed(final(self).view()),
    {
        proof {
            use_type_invariant(&*self);
        }
        let ghost m = self.view();
        let k = trim_str(map_id);
        match self.index_of(k.as_slice()) {
            None => {
                assert(m.remove(k@) =~= m);
            },
            Some(i) => {
                let ghost old_rows = self.rows@;
                let mut rows: Vec<SavedMap> = Vec::new();
                std::mem::swap(&mut rows, &mut self.rows);
                rows.remove(i);
                proof {
                    let nr = rows@;
                    assert(nr == old_rows.remove(i as int));
                    assert forall|j: int| 0 <= j < nr.len() implies (#[trigger] nr[j]).key@ == map_key(
                        nr[j].header@,
                    ) by {
                        if j < i {
                            assert(nr[j] == old_rows[j]);
                        } else {
                            assert(nr[j] == old_rows[j + 1]);
                        }
                    }
                    assert forall|a: int, b: int|
                        0 <= a < nr.len() && 0 <= b < nr.len() && a != b implies (#[trigger] nr[a]).key@
                        != (#[trigger] nr[b]).key@ by {
                        let oa = if a < i { a } else { a + 1 };
                        let ob = if b < i { b } else { b + 1 };
                        assert(nr[a] == old_rows[oa]);
                        assert(nr[b] == old_rows[ob]);
                    }
                    assert(rows_well_keyed(nr));
                    let target = m.remove(k@);
                    assert forall|kk: Seq<char>| #[trigger] rows_map(nr).contains_key(kk) == target.contains_key(kk)
                        by {
                        if has_row(nr, kk) {
                            let a = choose|a: int| 0 <= a < nr.len() && (#[trigger] nr[a]).key@ == kk;
                            let oa = if a < i { a } else { a + 1 };
                            assert(nr[a] == old_rows[oa]);
                            lemma_rows_map_at(old_rows, oa);
                            assert(oa != i);
                        }
                        if target.contains_key(kk) {
                            let a = choose|a: int| 0 <= a < old_rows.len() && (#[trigger] old_rows[a]).key@ == kk;
                            assert(a != i);
                            let na = if a < i { a } else { a - 1 };
                            assert(nr[na] == old_rows[a]);
                            assert(nr[na].key@ == kk);
                            assert(has_row(nr, kk));
                        }
                    }
                    assert forall|kk: Seq<char>| #[trigger] rows_map(nr).contains_key(kk) implies rows_map(nr)[kk]
                        == target[kk] by {
                        let a = choose|a: int| 0 <= a < nr.len() && (#[trigger] nr[a]).key@ == kk;
                        lemma_rows_map_at(nr, a);
                        let oa = if a < i { a } else { a + 1 };
                        assert(nr[a] == old_rows[oa]);
                        lemma_rows_map_at(old_rows, oa);
                    }
                    assert(rows_map(nr) =~= target);
                }
                self.rows = rows;
            },
        }
        proof {
            use_type_invariant(&*self);
            lemma_rows_map_keyed(self.rows@);
        }
    }

    /// A table of the given saved maps, stored one after another without
    /// checks (a later map replaces an earlier one with the same key).
    pub fn from_saved(maps: Vec<ProductionMapHeader>) -> (r: Self)
        ensures
            r.view() == stored_all(Map::empty(), headers_view(maps@)),
            keyed(r.view()),
    {
        let mut t = ProductionMapTable::new();
        let ghost hs = headers_view(maps@);
        assert(hs.subrange(0, hs.len() as int) =~= hs);
        let mut i: usize = 0;
        while i < maps.len()
            invariant
                i <= maps@.len(),
                hs == headers_view(maps@),
                hs.len() == maps@.len(),
                stored_all(Map::empty(), hs) == stored_all(t.view(), hs.subrange(i as int, hs.len() as int)),
            decreases maps@.len() - i,
        {
            let ghost rest = hs.subrange(i as int, hs.len() as int);
            assert(rest[0] == maps@[i as int]@);
            assert(rest.drop_first() =~= hs.subrange(i + 1, hs.len() as int));
            t.store(maps[i].duplicate());
            i = i + 1;
        }
        assert(hs.subrange(i as int, hs.len() as int) =~= Seq::<MapHeaderView>::empty());
        proof {
            use_type_invariant(&t);
            lemma_rows_map_keyed(t.rows@);
        }
        t
    }
}


// ---------------------------------------------------------------------------
// Laws
// ---------------------------------------------------------------------------

/// Whether no two saved maps carry the same (non-blank) order number.
pub open spec fn order_numbers_unique(m: Map<Seq<char>, MapHeaderView>) -> bool {
    forall|k1: Seq<char>, k2: Seq<char>|
        m.contains_key(k1) && m.contains_key(k2) && k1 != k2 && trim(
            (#[trigger] m[k1]).order_number,
        ).len() > 0 ==> trim(m[k1].order_number) != trim((#[trigger] m[k2]).order_number)
}

/// A saved map is read back as it was saved: after a save is accepted,
/// the map under its key is the map saved.
pub proof fn law_saved_map_reads_back(m: Map<Seq<char>, MapHeaderView>, h: MapHeaderView)
    requires
        put_check(m, h) is Ok,
    ensures
        saved_under(m.insert(map_key(h), h), map_key(h)) == Some(h),
{
}

/// Accepted saves keep order numbers unique: when no two saved maps share
/// an order number and a save is accepted, still no two do.
pub proof fn law_order_numbers_stay_unique(m: Map<Seq<char>, MapHeaderView>, h: MapHeaderView)
    requires
        keyed(m),
        order_numbers_unique(m),
        put_check(m, h) is Ok,
    ensures
        order_numbers_unique(m.insert(map_key(h), h)),
{
    let key = map_key(h);
    let n = m.insert(key, h);
    assert forall|k1: Seq<char>, k2: Seq<char>|
        n.contains_key(k1) && n.contains_key(k2) && k1 != k2 && trim(
            (#[trigger] n[k1]).order_number,
        ).len() > 0 implies trim(n[k1].order_number) != trim((#[trigger] n[k2]).order_number) by {
        if k1 == key {
            assert(m.contains_key(k2) && n[k2] == m[k2]);
            if trim(m[k2].order_number) == trim(h.order_number) {
                assert(!order_number_taken_in(m, h));
                assert(same_zakaz(m[k2], h));
                assert(map_key(m[k2]) == k2);
            }
        } else if k2 == key {
            assert(m.contains_key(k1) && n[k1] == m[k1]);
            if trim(m[k1].order_number) == trim(h.order_number) {
                assert(!order_number_taken_in(m, h));
                assert(same_zakaz(m[k1], h));
                assert(map_key(m[k1]) == k1);
            }
        } else {
            assert(n[k1] == m[k1] && n[k2] == m[k2]);
        }
    }
}

/// A zakaz map keeps its order number: when a save of a `zakaz-` map that
/// carries an order number is accepted over a saved map that has one, the
/// two order numbers are the same.
pub proof fn law_zakaz_order_number_kept(m: Map<Seq<char>, MapHeaderView>, h: MapHeaderView)
    requires
        put_check(m, h) is Ok,
        has_prefix(map_key(h), "zakaz-"@),
        m.contains_key(map_key(h)),
        trim(m[map_key(h)].order_number).len() > 0,
        trim(h.order_number).len() > 0,
    ensures
        trim(h.order_number) == trim(m[map_key(h)].order_number),
{
}

/// Saving a map again, unchanged, is always accepted when order numbers are
/// unique.
pub proof fn law_unchanged_resave_accepted(m: Map<Seq<char>, MapHeaderView>, h: MapHeaderView)
    requires
        keyed(m),
        order_numbers_unique(m),
        m.contains_key(map_key(h)),
        m[map_key(h)] == h,
    ensures
        put_check(m, h) is Ok,
{
    let key = map_key(h);
    if order_number_taken_in(m, h) {
        let k = choose|k: Seq<char>|
            m.contains_key(k) && trim((#[trigger] m[k]).order_number) == trim(h.order_number)
                && !same_zakaz(m[k], h);
        if k != key {
            assert(trim(m[key].order_number).len() > 0);
            assert(trim(m[key].order_number) != trim(m[k].order_number));
        }
    }
}

/// A batch of one map is a single save.
pub proof fn law_batch_of_one_is_a_save(m: Map<Seq<char>, MapHeaderView>, h: MapHeaderView)
    ensures
        batch_outcome(m, seq![h]) == match put_check(m, h) {
            Ok(_) => Ok(m.insert(map_key(h), h)),
            Err(e) => Err::<Map<Seq<char>, MapHeaderView>, ProductionMapError>(e),
        },
{
    assert(seq![h].drop_first() =~= Seq::<MapHeaderView>::empty());
    assert(seq![h][0] == h);
    assert(batch_outcome(m.insert(map_key(h), h), Seq::<MapHeaderView>::empty()) == Ok::<
        Map<Seq<char>, MapHeaderView>,
        ProductionMapError,
    >(m.insert(map_key(h), h)));
}


/// What saving the `i`-th map of a batch gives, once the maps before it
/// have been saved.
pub open spec fn check_at(m: Map<Seq<char>, MapHeaderView>, hs: Seq<MapHeaderView>, i: int) -> Result<
    (),
    ProductionMapError,
> {
    put_check(stored_all(m, hs.take(i)), hs[i])
}

/// Every map of the batch before the `i`-th can be saved in turn.
pub open spec fn accepted_before(m: Map<Seq<char>, MapHeaderView>, hs: Seq<MapHeaderView>, i: int) -> bool {
    forall|j: int| 0 <= j < i ==> (#[trigger] check_at(m, hs, j)) is Ok
}

/// The `i`-th map is the first of the batch that cannot be saved.
pub open spec fn first_rejected(m: Map<Seq<char>, MapHeaderView>, hs: Seq<MapHeaderView>, i: int) -> bool {
    &&& 0 <= i < hs.len()
    &&& accepted_before(m, hs, i)
    &&& check_at(m, hs, i) is Err
}

proof fn lemma_prefix_after_first(m: Map<Seq<char>, MapHeaderView>, hs: Seq<MapHeaderView>, j: int)
    requires
        0 <= j < hs.len(),
    ensures
        stored_all(m, hs.take(j + 1)) == stored_all(
            m.insert(map_key(hs[0]), hs[0]),
            hs.drop_first().take(j),
        ),
{
    assert(hs.take(j + 1).drop_first() =~= hs.drop_first().take(j));
    assert(hs.take(j + 1)[0] == hs[0]);
}

/// A batch that is refused fails with the error of its first map that
/// cannot be saved after the maps before it; a batch whose maps can all be
/// saved in turn stores them all.
pub proof fn law_batch_error_is_first_rejection(m: Map<Seq<char>, MapHeaderView>, hs: Seq<MapHeaderView>)
    ensures
        forall|i: int|
            #[trigger] first_rejected(m, hs, i) ==> batch_outcome(m, hs) is Err && check_at(m, hs, i)
                == Err::<(), ProductionMapError>(batch_outcome(m, hs)->Err_0),
        accepted_before(m, hs, hs.len() as int) ==> batch_outcome(m, hs) == Ok::<
            Map<Seq<char>, MapHeaderView>,
            ProductionMapError,
        >(stored_all(m, hs)),
    decreases hs.len(),
{
    if hs.len() > 0 {
        let h0 = hs[0];
        let m1 = m.insert(map_key(h0), h0);
        let rest = hs.drop_first();
        law_batch_error_is_first_rejection(m1, rest);
        assert(hs.take(0) =~= Seq::<MapHeaderView>::empty());
        assert(check_at(m, hs, 0) == put_check(m, h0));
        assert forall|j: int| 0 <= j < rest.len() implies check_at(m, hs, j + 1) == check_at(m1, rest, j) by {
            lemma_prefix_after_first(m, hs, j);
        }
        assert forall|i: int| #[trigger] first_rejected(m, hs, i) implies batch_outcome(m, hs) is Err
            && check_at(m, hs, i) == Err::<(), ProductionMapError>(batch_outcome(m, hs)->Err_0) by {
            if i > 0 {
                assert(check_at(m, hs, 0) is Ok);
                assert forall|j: int| 0 <= j < i - 1 implies (#[trigger] check_at(m1, rest, j)) is Ok by {
                    assert(check_at(m, hs, j + 1) is Ok);
                }
                assert(check_at(m, hs, (i - 1) + 1) == check_at(m1, rest, i - 1));
                assert(first_rejected(m1, rest, i - 1));
            }
        }
        if accepted_before(m, hs, hs.len() as int) {
            assert(check_at(m, hs, 0) is Ok);
            assert forall|j: int| 0 <= j < rest.len() implies (#[trigger] check_at(m1, rest, j)) is Ok by {
                assert(check_at(m, hs, j + 1) is Ok);
            }
        }
    }
}


/// A save undone: whether saving `h` was accepted or refused, putting back
/// what was saved under its key before gives back the saved maps as they
/// were.
pub proof fn law_restore_undoes_save(m: Map<Seq<char>, MapHeaderView>, h: MapHeaderView)
    requires
        keyed(m),
    ensures
        ({
            let k = map_key(h);
            let after = match put_check(m, h) {
                Ok(_) => m.insert(k, h),
                Err(_) => m,
            };
            restored(after, saved_under(m, k), k) == m
        }),
{
    let k = map_key(h);
    let after = match put_check(m, h) {
        Ok(_) => m.insert(k, h),
        Err(_) => m,
    };
    if m.contains_key(k) {
        assert(map_key(m[k]) == k);
        assert(after.insert(k, m[k]) =~= m);
    } else {
        assert(after.remove(k) =~= m);
    }
}

} // verus!
