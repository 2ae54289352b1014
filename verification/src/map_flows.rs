//! Saving a production map together with its calculate-order template, as
//! one operation: the map is saved first, then the template linked to it;
//! when the template cannot be saved, the map is put back as it was.
use vstd::prelude::*;

use crate::api::{AdminError, AdminErrorResponse};
use crate::calculate::CalculateOrderError;
use crate::flows::{refusal, Failure};
use crate::models::{Principal, PrincipalRole};
use crate::order_templates::CalculateOrderTemplate;
use crate::production_map::{
    is_quick_template_order_clone, plan_template, quick_template_order_clone, starts_order_integrations,
    ProductionMapError, ProductionMapHeader, TemplatePlan,
};
use crate::text::{trim, trimmed_string};

verus! {

fn refuse(status: u16, error: &'static str) -> (r: Failure)
    ensures
        r == refusal(status, error),
{
    Failure { status, error, code: None }
}

/// A map saved with its order, as the client sends it: the map's header
/// (the caller holds the whole map), its template if any, and whether the
/// map is a sheet order map (decided from its nodes).
#[derive(Debug)]
pub struct MapSaveRequest<N> {
    pub map: ProductionMapHeader,
    pub template: Option<CalculateOrderTemplate<N>>,
    pub sheet_order_map: bool,
}

/// Where saving a map with its order stands.
#[derive(Debug)]
pub enum MapSaveState<N> {
    /// The request as it came: whether it is a `PUT`, its bearer token and
    /// its body (`None` when it is not valid JSON).
    Received { is_put: bool, token: Option<String>, request: Option<MapSaveRequest<N>> },
    /// The session of the token is being looked up.
    Authorizing { is_put: bool, request: Option<MapSaveRequest<N>> },
    /// Whether `principal` may manage production maps is being checked.
    Checking { is_put: bool, principal: Principal, request: Option<MapSaveRequest<N>> },
    /// The template is being validated.
    Validating { principal: Principal, map: ProductionMapHeader, sheet_order_map: bool },
    /// The map saved under `map_id` before this request is being read.
    Reading {
        role: PrincipalRole,
        owner_ref: String,
        template: Option<CalculateOrderTemplate<N>>,
        opens_order: bool,
        sheet_order_map: bool,
        map_id: String,
    },
    /// The map is being saved.
    Saving {
        role: PrincipalRole,
        owner_ref: String,
        template: Option<CalculateOrderTemplate<N>>,
        opens_order: bool,
        sheet_order_map: bool,
        map_id: String,
        previous_existed: bool,
    },
    /// The template is being saved.
    SavingTemplate { map_id: String, previous_existed: bool, sheet_order_map: bool },
    /// The map is being put back after the template failed with `error`.
    Restoring { error: CalculateOrderError },
    /// The request is answered.
    Done,
}

/// What the caller reports back.
#[derive(Debug)]
pub enum MapSaveEvent<N> {
    Start,
    /// The session of the token, or `None` when there is none.
    Session(Option<Principal>),
    /// Whether the principal may manage production maps.
    Access(bool),
    /// The template handed back after validation, or why it is invalid.
    Validated(Result<CalculateOrderTemplate<N>, CalculateOrderError>),
    /// Whether a map was saved under the map's id (the caller holds it),
    /// or why it could not be read.
    Previous(Result<bool, ProductionMapError>),
    /// The id of the saved map, or why it could not be saved.
    Upserted(Result<String, ProductionMapError>),
    /// Whether the template was saved (the caller holds what the store gave).
    TemplateSaved(Result<(), CalculateOrderError>),
    /// The map was put back (or putting it back failed; either way the
    /// template's error answers).
    Restored,
}

/// What the caller does next.
#[derive(Debug)]
pub enum MapSaveAction<N> {
    LookUpSession(String),
    /// Check that this principal may manage production maps.
    CheckAccess(Principal),
    /// Validate this template and hand it back.
    ValidateTemplate(CalculateOrderTemplate<N>),
    /// Read the map saved under this id.
    ReadPrevious(String),
    /// Save the map of the request.
    UpsertMap,
    /// Save this template for the owner with this role and reference.
    UpsertTemplate { role: PrincipalRole, owner_ref: String, template: CalculateOrderTemplate<N> },
    /// Put back the map read before under this id (remove it if there was
    /// none).
    RestoreMap(String),
    /// Answer with the saved map and the saved template; when
    /// `start_integrations`, start the order integrations with the saved
    /// template, or else with `integration_template`.
    Respond { start_integrations: bool, integration_template: Option<CalculateOrderTemplate<N>> },
    Refuse(Failure),
    /// Answer with this production map error.
    RefuseMap(ProductionMapError),
    /// Answer with this template error: `400` with its detail for invalid
    /// input, `500 "calculate order save failed"` otherwise.
    RefuseTemplate(CalculateOrderError),
    /// Nothing: the event does not belong to this state.
    Wait,
}

/// Whether `e` is what the flow waits for in `s`.
pub open spec fn map_save_expects<N>(s: MapSaveState<N>, e: MapSaveEvent<N>) -> bool {
    match (s, e) {
        (MapSaveState::Received { .. }, MapSaveEvent::Start) => true,
        (MapSaveState::Authorizing { .. }, MapSaveEvent::Session(_)) => true,
        (MapSaveState::Checking { .. }, MapSaveEvent::Access(_)) => true,
        (MapSaveState::Validating { .. }, MapSaveEvent::Validated(_)) => true,
        (MapSaveState::Reading { .. }, MapSaveEvent::Previous(_)) => true,
        (MapSaveState::Saving { .. }, MapSaveEvent::Upserted(_)) => true,
        (MapSaveState::SavingTemplate { .. }, MapSaveEvent::TemplateSaved(_)) => true,
        (MapSaveState::Restoring { .. }, MapSaveEvent::Restored) => true,
        _ => false,
    }
}

/// The step that reads the previous map: the request's owner, template,
/// whether it opens a quick template as an order, and the trimmed map id.
pub open spec fn reading_entered<N>(
    p: Principal,
    map: ProductionMapHeader,
    template: Option<CalculateOrderTemplate<N>>,
    sheet: bool,
    r: (MapSaveState<N>, MapSaveAction<N>),
) -> bool {
    &&& r.0 matches MapSaveState::Reading { role, owner_ref, template: t, opens_order, sheet_order_map, map_id }
        && role == p.role && owner_ref == p.ref_ && t == template && sheet_order_map == sheet
        && opens_order == (template matches Some(x) && quick_template_order_clone(map.id@, x.source_map_id@, sheet))
        && map_id@ == trim(map.id@)
    &&& r.1 matches MapSaveAction::ReadPrevious(id) && id@ == trim(map.id@)
}

/// One step of saving a map with its order.
pub open spec fn map_save_next<N>(s: MapSaveState<N>, e: MapSaveEvent<N>, r: (MapSaveState<N>, MapSaveAction<N>)) -> bool {
    if !map_save_expects(s, e) {
        r == (s, MapSaveAction::<N>::Wait)
    } else {
        match (s, e) {
            (MapSaveState::Received { is_put, token, request }, _) => match token {
                None => r == (MapSaveState::<N>::Done, MapSaveAction::<N>::Refuse(refusal(401, "unauthorized"))),
                Some(t) => r == (MapSaveState::Authorizing { is_put, request }, MapSaveAction::<N>::LookUpSession(t)),
            },
            (MapSaveState::Authorizing { is_put, request }, MapSaveEvent::Session(p)) => match p {
                None => r == (MapSaveState::<N>::Done, MapSaveAction::<N>::Refuse(refusal(401, "unauthorized"))),
                Some(p) => r == (MapSaveState::Checking { is_put, principal: p, request }, MapSaveAction::<N>::CheckAccess(p)),
            },
            (MapSaveState::Checking { is_put, principal, request }, MapSaveEvent::Access(ok)) => if !ok {
                r == (MapSaveState::<N>::Done, MapSaveAction::<N>::Refuse(refusal(403, "forbidden")))
            } else if !is_put {
                r == (MapSaveState::<N>::Done, MapSaveAction::<N>::Refuse(refusal(405, "method not allowed")))
            } else {
                match request {
                    None => r == (MapSaveState::<N>::Done, MapSaveAction::<N>::Refuse(refusal(400, "invalid json"))),
                    Some(q) => match q.template {
                        Some(t) => r == (
                            MapSaveState::<N>::Validating { principal, map: q.map, sheet_order_map: q.sheet_order_map },
                            MapSaveAction::<N>::ValidateTemplate(t),
                        ),
                        None => reading_entered(principal, q.map, None, q.sheet_order_map, r),
                    },
                }
            },
            (MapSaveState::Validating { principal, map, sheet_order_map }, MapSaveEvent::Validated(v)) => match v {
                Err(error) => r == (MapSaveState::<N>::Done, MapSaveAction::<N>::RefuseTemplate(error)),
                Ok(t) => reading_entered(principal, map, Some(t), sheet_order_map, r),
            },
            (
                MapSaveState::Reading { role, owner_ref, template, opens_order, sheet_order_map, map_id },
                MapSaveEvent::Previous(p),
            ) => match p {
                Err(error) => r == (MapSaveState::<N>::Done, MapSaveAction::<N>::RefuseMap(error)),
                Ok(existed) => r == (
                    MapSaveState::Saving {
                        role,
                        owner_ref,
                        template,
                        opens_order,
                        sheet_order_map,
                        map_id,
                        previous_existed: existed,
                    },
                    MapSaveAction::<N>::UpsertMap,
                ),
            },
            (
                MapSaveState::Saving { role, owner_ref, template, opens_order, sheet_order_map, map_id, previous_existed },
                MapSaveEvent::Upserted(u),
            ) => match u {
                Err(error) => r == (MapSaveState::<N>::Done, MapSaveAction::<N>::RefuseMap(error)),
                Ok(saved_id) => match template {
                    None => r == (
                        MapSaveState::<N>::Done,
                        MapSaveAction::<N>::Respond { start_integrations: false, integration_template: None },
                    ),
                    Some(t) => if opens_order {
                        r == (
                            MapSaveState::<N>::Done,
                            MapSaveAction::Respond {
                                start_integrations: !previous_existed && sheet_order_map,
                                integration_template: Some(t),
                            },
                        )
                    } else {
                        &&& r.0 == (MapSaveState::<N>::SavingTemplate { map_id, previous_existed, sheet_order_map })
                        &&& r.1 matches MapSaveAction::UpsertTemplate { role: ro, owner_ref: o, template: x }
                            && ro == role && o == owner_ref && x.source_map_id@ == trim(saved_id@)
                            && x == (CalculateOrderTemplate { source_map_id: x.source_map_id, ..t })
                    },
                },
            },
            (MapSaveState::SavingTemplate { map_id, previous_existed, sheet_order_map }, MapSaveEvent::TemplateSaved(v)) => match v {
                Ok(_) => r == (
                    MapSaveState::<N>::Done,
                    MapSaveAction::<N>::Respond {
                        start_integrations: !previous_existed && sheet_order_map,
                        integration_template: None,
                    },
                ),
                Err(error) => r == (MapSaveState::<N>::Restoring { error }, MapSaveAction::<N>::RestoreMap(map_id)),
            },
            (MapSaveState::Restoring { error }, _) => r == (MapSaveState::<N>::Done, MapSaveAction::<N>::RefuseTemplate(error)),
            _ => false,
        }
    }
}

fn map_save_expected<N>(s: &MapSaveState<N>, e: &MapSaveEvent<N>) -> (r: bool)
    ensures
        r == map_save_expects(*s, *e),
{
    match (s, e) {
        (MapSaveState::Received { .. }, MapSaveEvent::Start) => true,
        (MapSaveState::Authorizing { .. }, MapSaveEvent::Session(_)) => true,
        (MapSaveState::Checking { .. }, MapSaveEvent::Access(_)) => true,
        (MapSaveState::Validating { .. }, MapSaveEvent::Validated(_)) => true,
        (MapSaveState::Reading { .. }, MapSaveEvent::Previous(_)) => true,
        (MapSaveState::Saving { .. }, MapSaveEvent::Upserted(_)) => true,
        (MapSaveState::SavingTemplate { .. }, MapSaveEvent::TemplateSaved(_)) => true,
        (MapSaveState::Restoring { .. }, MapSaveEvent::Restored) => true,
        _ => false,
    }
}

fn enter_reading<N>(
    p: Principal,
    map: ProductionMapHeader,
    template: Option<CalculateOrderTemplate<N>>,
    sheet: bool,
) -> (r: (MapSaveState<N>, MapSaveAction<N>))
    ensures
        reading_entered(p, map, template, sheet, r),
{
    let opens_order = match &template {
        Some(t) => is_quick_template_order_clone(&map, t, sheet),
        None => false,
    };
    let map_id = trimmed_string(map.id.as_str());
    let read_id = trimmed_string(map.id.as_str());
    (
        MapSaveState::Reading { role: p.role, owner_ref: p.ref_, template, opens_order, sheet_order_map: sheet, map_id },
        MapSaveAction::ReadPrevious(read_id),
    )
}

/// The next state and action of saving a production map with its order.
pub fn production_map_save_with_order_step<N>(state: MapSaveState<N>, event: MapSaveEvent<N>) -> (r: (
    MapSaveState<N>,
    MapSaveAction<N>,
))
    ensures
        map_save_next(state, event, r),
{
    if !map_save_expected(&state, &event) {
        return (state, MapSaveAction::Wait);
    }
    match state {
        MapSaveState::Received { is_put, token, request } => match token {
            None => (MapSaveState::Done, MapSaveAction::Refuse(refuse(401, "unauthorized"))),
            Some(t) => (MapSaveState::Authorizing { is_put, request }, MapSaveAction::LookUpSession(t)),
        },
        MapSaveState::Authorizing { is_put, request } => match event {
            MapSaveEvent::Session(Some(p)) => {
                let copy = Principal {
                    role: p.role,
                    display_name: p.display_name.clone(),
                    legal_name: p.legal_name.clone(),
                    ref_: p.ref_.clone(),
                    phone: p.phone.clone(),
                    avatar_url: p.avatar_url.clone(),
                };
                (MapSaveState::Checking { is_put, principal: p, request }, MapSaveAction::CheckAccess(copy))
            },
            _ => (MapSaveState::Done, MapSaveAction::Refuse(refuse(401, "unauthorized"))),
        },
        MapSaveState::Checking { is_put, principal, request } => {
            let ok = match event {
                MapSaveEvent::Access(b) => b,
                _ => false,
            };
            if !ok {
                return (MapSaveState::Done, MapSaveAction::Refuse(refuse(403, "forbidden")));
            }
            if !is_put {
                return (MapSaveState::Done, MapSaveAction::Refuse(refuse(405, "method not allowed")));
            }
            match request {
                None => (MapSaveState::Done, MapSaveAction::Refuse(refuse(400, "invalid json"))),
                Some(q) => {
                    let MapSaveRequest { map, template, sheet_order_map } = q;
                    match template {
                        Some(t) => (
                            MapSaveState::Validating { principal, map, sheet_order_map },
                            MapSaveAction::ValidateTemplate(t),
                        ),
                        None => enter_reading(principal, map, None, sheet_order_map),
                    }
                },
            }
        },
        MapSaveState::Validating { principal, map, sheet_order_map } => match event {
            MapSaveEvent::Validated(Ok(t)) => enter_reading(principal, map, Some(t), sheet_order_map),
            MapSaveEvent::Validated(Err(error)) => (MapSaveState::Done, MapSaveAction::RefuseTemplate(error)),
            _ => (MapSaveState::Done, MapSaveAction::Wait),
        },
        MapSaveState::Reading { role, owner_ref, template, opens_order, sheet_order_map, map_id } => match event {
            MapSaveEvent::Previous(Ok(existed)) => (
                MapSaveState::Saving {
                    role,
                    owner_ref,
                    template,
                    opens_order,
                    sheet_order_map,
                    map_id,
                    previous_existed: existed,
                },
                MapSaveAction::UpsertMap,
            ),
            MapSaveEvent::Previous(Err(error)) => (MapSaveState::Done, MapSaveAction::RefuseMap(error)),
            _ => (MapSaveState::Done, MapSaveAction::Wait),
        },
        MapSaveState::Saving { role, owner_ref, template, opens_order, sheet_order_map, map_id, previous_existed } => {
            let saved_id = match event {
                MapSaveEvent::Upserted(Ok(id)) => id,
                MapSaveEvent::Upserted(Err(error)) => {
                    return (MapSaveState::Done, MapSaveAction::RefuseMap(error));
                },
                _ => {
                    return (MapSaveState::Done, MapSaveAction::Wait);
                },
            };
            let has_template = template.is_some();
            match plan_template(template, opens_order, saved_id.as_str()) {
                TemplatePlan::NoTemplate => (
                    MapSaveState::Done,
                    MapSaveAction::Respond { start_integrations: false, integration_template: None },
                ),
                TemplatePlan::Integration(t) => (
                    MapSaveState::Done,
                    MapSaveAction::Respond {
                        start_integrations: starts_order_integrations(previous_existed, sheet_order_map, has_template),
                        integration_template: Some(t),
                    },
                ),
                TemplatePlan::Save(t) => (
                    MapSaveState::SavingTemplate { map_id, previous_existed, sheet_order_map },
                    MapSaveAction::UpsertTemplate { role, owner_ref, template: t },
                ),
            }
        },
        MapSaveState::SavingTemplate { map_id, previous_existed, sheet_order_map } => match event {
            MapSaveEvent::TemplateSaved(Ok(_)) => (
                MapSaveState::Done,
                MapSaveAction::Respond {
                    start_integrations: starts_order_integrations(previous_existed, sheet_order_map, true),
                    integration_template: None,
                },
            ),
            MapSaveEvent::TemplateSaved(Err(error)) => (MapSaveState::Restoring { error }, MapSaveAction::RestoreMap(map_id)),
            _ => (MapSaveState::Done, MapSaveAction::Wait),
        },
        MapSaveState::Restoring { error } => (MapSaveState::Done, MapSaveAction::RefuseTemplate(error)),
        MapSaveState::Done => (MapSaveState::Done, MapSaveAction::Wait),
    }
}


/// The admin error that answers a template that could not be validated or
/// saved with its map: `400` with the detail of invalid input,
/// `500 "calculate order save failed"` when the store failed.
pub fn template_error(error: CalculateOrderError) -> (r: AdminError)
    ensures
        match error {
            CalculateOrderError::InvalidInput(detail) => r.status == 400 && r.body.error@ == detail@,
            CalculateOrderError::StoreFailed => r.status == 500 && r.body.error@ == "calculate order save failed"@,
        },
{
    match error {
        CalculateOrderError::InvalidInput(detail) => AdminError { status: 400, body: AdminErrorResponse { error: detail } },
        CalculateOrderError::StoreFailed => AdminError {
            status: 500,
            body: AdminErrorResponse::new("calculate order save failed"),
        },
    }
}

} // verus!
