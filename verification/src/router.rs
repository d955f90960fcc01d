//! The dispatcher: resolves an HTTP-shaped request to a route, builds
//! canonical manager arguments, and wraps manager results in SCIM
//! response envelopes.  Each request is handled as a small state
//! machine: [`begin`] yields either a finished response or a manager
//! call with a continuation, and [`resume`] consumes the manager's
//! result until a response is reached.  The host performs the calls.

use vstd::prelude::*;

use crate::args::{
    ListResourcesArgs, SpecListQuery, sp_q_get, sp_parse_usize, sp_split_commas, sp_sort_order_of,
    view_pairs, view_string_seq, q_get, parse_usize, split_commas, parse_sort_order,
    lemma_view_string_seq,
};
use crate::config::ServiceProviderConfig;
use crate::error::{Error, ErrorType, SpecError};
use crate::filter::{
    AttrPath, Filter, SpecAttrPath, SpecFilter, ValuePath, parse_filter, parse_attr_path,
    parse_value_path, sp_take_rt,
};
use crate::grammar::{sp_parse_filter, sp_parse_attr_path, sp_parse_value_path, sp_filter,
    sp_attr_path, sp_value_path};
use crate::json::{JsonValue, SpecJson, view_json_entries, spec_obj_get, obj_get};
use crate::list::ListResponse;
use crate::manager::{
    GetResourceArgs, ListResourceArgs, ListResourceResult, SortOrder, SpecGetArgs, SpecListArgs,
    SpecUpdateArgs, UpdateOp, UpdateResourceArgs, UpdateResourceItem, view_update_items,
    lemma_view_update_items, SpecUpdateItem,
};
use crate::normalize::{
    sp_visit_filter, sp_visit_path, sp_visit_value_path, view_schemas, visit_filter,
    visit_attr_path, visit_value_path, lemma_view_schemas,
};

use crate::resource_type::ResourceType;
use crate::schema::Schema;
use crate::select::{sp_optional_attributes, view_paths, lemma_view_paths, list_optional_attributes};
use crate::state::{Cream, ResourceTypeState, sp_lookup_schema, sp_lookup_rts, sp_cream_wf,
    lookup_schema, lemma_lookup_schema};
use crate::text::{str_to_chars, chars_range_to_string, str_eq};
use crate::update::{
    PatchOperation, PatchOperationType, sp_normalize_update, normalize_update,
};

verus! {

/// An HTTP method, as far as the protocol engine distinguishes them.
#[derive(Debug, Clone, Copy, PartialEq, Eq, Structural)]
pub enum Method {
    /// GET
    Get,
    /// POST
    Post,
    /// PUT
    Put,
    /// PATCH
    Patch,
    /// DELETE
    Delete,
}

/// An incoming request, reduced to plain values: the method, the path
/// below the service base (percent-decoded, without the query string),
/// the decoded query pairs, and the decoded JSON body when one was sent.
#[derive(Debug, PartialEq, Eq)]
pub struct Request {
    /// The HTTP method.
    pub method: Method,
    /// The path below the service base.
    pub path: String,
    /// The decoded query pairs, in order.
    pub query: Vec<(String, String)>,
    /// The decoded JSON body, if any.
    pub body: Option<JsonValue>,
}

/// Model of a resolved route.
pub enum SpecRoute {
    ServiceProviderConfig,
    ListSchemas,
    GetSchema(Seq<char>),
    ListResourceTypes,
    GetResourceType(Seq<char>),
    SearchRoot,
    ListResources(int),
    CreateResource(int),
    SearchResources(int),
    GetResource(int, Seq<char>),
    PutResource(int, Seq<char>),
    PatchResource(int, Seq<char>),
    DeleteResource(int, Seq<char>),
    NotFoundRoute,
    MethodNotAllowedRoute,
}

/// A resolved route: a discovery document, the cross-type search, an
/// operation on a registered resource type (named by its table index),
/// or one of the two fallbacks.
#[derive(Debug, PartialEq, Eq)]
pub enum Route {
    /// GET `/ServiceProviderConfig`.
    ServiceProviderConfig,
    /// GET `/Schemas`.
    ListSchemas,
    /// GET `/Schemas/{id}`.
    GetSchema(String),
    /// GET `/ResourceTypes`.
    ListResourceTypes,
    /// GET `/ResourceTypes/{name}`.
    GetResourceType(String),
    /// POST `/.search`.
    SearchRoot,
    /// GET `/{endpoint}`.
    ListResources(usize),
    /// POST `/{endpoint}`.
    CreateResource(usize),
    /// POST `/{endpoint}/.search`.
    SearchResources(usize),
    /// GET `/{endpoint}/{id}`.
    GetResource(usize, String),
    /// PUT `/{endpoint}/{id}`.
    PutResource(usize, String),
    /// PATCH `/{endpoint}/{id}`.
    PatchResource(usize, String),
    /// DELETE `/{endpoint}/{id}`.
    DeleteResource(usize, String),
    /// No endpoint matches the path.
    NotFoundRoute,
    /// The path is known but the method is not allowed on it.
    MethodNotAllowedRoute,
}

impl View for Route {
    type V = SpecRoute;

    open spec fn view(&self) -> SpecRoute {
        match self {
            Route::ServiceProviderConfig => SpecRoute::ServiceProviderConfig,
            Route::ListSchemas => SpecRoute::ListSchemas,
            Route::GetSchema(id) => SpecRoute::GetSchema(id@),
            Route::ListResourceTypes => SpecRoute::ListResourceTypes,
            Route::GetResourceType(n) => SpecRoute::GetResourceType(n@),
            Route::SearchRoot => SpecRoute::SearchRoot,
            Route::ListResources(i) => SpecRoute::ListResources(*i as int),
            Route::CreateResource(i) => SpecRoute::CreateResource(*i as int),
            Route::SearchResources(i) => SpecRoute::SearchResources(*i as int),
            Route::GetResource(i, id) => SpecRoute::GetResource(*i as int, id@),
            Route::PutResource(i, id) => SpecRoute::PutResource(*i as int, id@),
            Route::PatchResource(i, id) => SpecRoute::PatchResource(*i as int, id@),
            Route::DeleteResource(i, id) => SpecRoute::DeleteResource(*i as int, id@),
            Route::NotFoundRoute => SpecRoute::NotFoundRoute,
            Route::MethodNotAllowedRoute => SpecRoute::MethodNotAllowedRoute,
        }
    }
}

/// The rest of `path` below the prefix: empty when the two are equal,
/// the text after the separating slash when `prefix` is a proper
/// segment-prefix, nothing otherwise.
pub open spec fn sp_tail_after(path: Seq<char>, prefix: Seq<char>) -> Option<Seq<char>> {
    if path == prefix {
        Some(Seq::empty())
    } else if path.len() > prefix.len() && path.take(prefix.len() as int) == prefix && path[
        prefix.len() as int
    ] == '/' {
        Some(path.skip(prefix.len() as int + 1))
    } else {
        None
    }
}

/// Whether a slash occurs in `s`.
pub open spec fn sp_has_slash(s: Seq<char>) -> bool {
    exists|k: int| 0 <= k < s.len() && s[k] == '/'
}

/// The rest of the path below a prefix, if the prefix matches whole
/// segments.
fn tail_after(path: &Vec<char>, prefix: &str) -> (r: Option<String>)
    ensures
        match &r {
            Some(t) => sp_tail_after(path@, prefix@) == Some(t@),
            None => sp_tail_after(path@, prefix@) is None,
        },
{
    let pl = prefix.unicode_len();
    if path.len() < pl {
        proof {
            assert(path@ != prefix@);
        }
        return None;
    }
    let mut k: usize = 0;
    while k < pl
        invariant
            pl == prefix@.len(),
            pl <= path@.len(),
            k <= pl,
            forall|t: int| 0 <= t < k ==> path@[t] == prefix@[t],
        decreases pl - k,
    {
        if path[k] != prefix.get_char(k) {
            proof {
                assert(path@.take(pl as int)[k as int] != prefix@[k as int]);
                assert(path@.take(pl as int) != prefix@);
                if path@ == prefix@ {
                    assert(path@[k as int] == prefix@[k as int]);
                }
            }
            return None;
        }
        k = k + 1;
    }
    proof {
        assert(path@.take(pl as int) =~= prefix@);
    }
    if path.len() == pl {
        proof {
            assert(path@ =~= prefix@);
        }
        Some(String::new())
    } else {
        if path[pl] == '/' {
            let t = chars_range_to_string(path, pl + 1, path.len());
            proof {
                assert(path@ != prefix@);
                assert(t@ =~= path@.skip(pl as int + 1));
            }
            Some(t)
        } else {
            proof {
                assert(path@ != prefix@);
            }
            None
        }
    }
}

/// Whether a slash occurs in `s`.
fn has_slash(s: &String) -> (r: bool)
    ensures
        r == sp_has_slash(s@),
{
    let cs = str_to_chars(s.as_str());
    let mut k: usize = 0;
    while k < cs.len()
        invariant
            cs@ == s@,
            k <= s@.len(),
            forall|t: int| 0 <= t < k ==> s@[t] != '/',
        decreases s@.len() - k,
    {
        if cs[k] == '/' {
            return true;
        }
        k = k + 1;
    }
    false
}

/// Route resolution over the resource-type table from index `i` on.
pub open spec fn sp_resolve_rt(
    rts: Seq<ResourceTypeState>,
    method: Method,
    path: Seq<char>,
    i: int,
) -> SpecRoute
    decreases rts.len() - i,
{
    if i < 0 || i >= rts.len() {
        SpecRoute::NotFoundRoute
    } else {
        match sp_tail_after(path, rts[i].resource_type.endpoint@) {
            Some(rest) => {
                if rest.len() == 0 {
                    match method {
                        Method::Get => SpecRoute::ListResources(i),
                        Method::Post => SpecRoute::CreateResource(i),
                        _ => SpecRoute::MethodNotAllowedRoute,
                    }
                } else if rest == ".search"@ {
                    if method == Method::Post {
                        SpecRoute::SearchResources(i)
                    } else {
                        SpecRoute::MethodNotAllowedRoute
                    }
                } else if !sp_has_slash(rest) {
                    match method {
                        Method::Get => SpecRoute::GetResource(i, rest),
                        Method::Put => SpecRoute::PutResource(i, rest),
                        Method::Patch => SpecRoute::PatchResource(i, rest),
                        Method::Delete => SpecRoute::DeleteResource(i, rest),
                        Method::Post => SpecRoute::MethodNotAllowedRoute,
                    }
                } else {
                    SpecRoute::NotFoundRoute
                }
            },
            None => sp_resolve_rt(rts, method, path, i + 1),
        }
    }
}

/// Route resolution: the discovery endpoints and the cross-type search
/// first, then the registered resource-type endpoints in registration
/// order; a known path with the wrong method is refused as such.
pub open spec fn sp_resolve(rts: Seq<ResourceTypeState>, method: Method, path: Seq<char>) -> SpecRoute {
    if path == "/ServiceProviderConfig"@ {
        if method == Method::Get {
            SpecRoute::ServiceProviderConfig
        } else {
            SpecRoute::MethodNotAllowedRoute
        }
    } else if path == "/Schemas"@ {
        if method == Method::Get {
            SpecRoute::ListSchemas
        } else {
            SpecRoute::MethodNotAllowedRoute
        }
    } else {
        match sp_tail_after(path, "/Schemas"@) {
            Some(rest) => if !sp_has_slash(rest) {
                if method == Method::Get {
                    SpecRoute::GetSchema(rest)
                } else {
                    SpecRoute::MethodNotAllowedRoute
                }
            } else {
                SpecRoute::NotFoundRoute
            },
            None => if path == "/ResourceTypes"@ {
                if method == Method::Get {
                    SpecRoute::ListResourceTypes
                } else {
                    SpecRoute::MethodNotAllowedRoute
                }
            } else {
                match sp_tail_after(path, "/ResourceTypes"@) {
                    Some(rest) => if !sp_has_slash(rest) {
                        if method == Method::Get {
                            SpecRoute::GetResourceType(rest)
                        } else {
                            SpecRoute::MethodNotAllowedRoute
                        }
                    } else {
                        SpecRoute::NotFoundRoute
                    },
                    None => if path == "/.search"@ {
                        if method == Method::Post {
                            SpecRoute::SearchRoot
                        } else {
                            SpecRoute::MethodNotAllowedRoute
                        }
                    } else {
                        sp_resolve_rt(rts, method, path, 0)
                    },
                }
            },
        }
    }
}

/// Resolves a request's method and path to a route.
pub fn resolve(rts: &Vec<ResourceTypeState>, method: Method, path: &str) -> (r: Route)
    ensures
        r@ == sp_resolve(rts@, method, path@),
{
    let cs = str_to_chars(path);
    if str_eq(path, "/ServiceProviderConfig") {
        if method == Method::Get {
            return Route::ServiceProviderConfig;
        } else {
            return Route::MethodNotAllowedRoute;
        }
    }
    if str_eq(path, "/Schemas") {
        if method == Method::Get {
            return Route::ListSchemas;
        } else {
            return Route::MethodNotAllowedRoute;
        }
    }
    match tail_after(&cs, "/Schemas") {
        Some(rest) => {
            if !has_slash(&rest) {
                if method == Method::Get {
                    return Route::GetSchema(rest);
                } else {
                    return Route::MethodNotAllowedRoute;
                }
            } else {
                return Route::NotFoundRoute;
            }
        },
        None => {},
    }
    if str_eq(path, "/ResourceTypes") {
        if method == Method::Get {
            return Route::ListResourceTypes;
        } else {
            return Route::MethodNotAllowedRoute;
        }
    }
    match tail_after(&cs, "/ResourceTypes") {
        Some(rest) => {
            if !has_slash(&rest) {
                if method == Method::Get {
                    return Route::GetResourceType(rest);
                } else {
                    return Route::MethodNotAllowedRoute;
                }
            } else {
                return Route::NotFoundRoute;
            }
        },
        None => {},
    }
    if str_eq(path, "/.search") {
        if method == Method::Post {
            return Route::SearchRoot;
        } else {
            return Route::MethodNotAllowedRoute;
        }
    }
    let mut i: usize = 0;
    proof {
        assert(sp_resolve(rts@, method, path@) == sp_resolve_rt(rts@, method, cs@, 0));
    }
    while i < rts.len()
        invariant
            i <= rts@.len(),
            sp_resolve(rts@, method, path@) == sp_resolve_rt(rts@, method, cs@, 0),
            sp_resolve_rt(rts@, method, cs@, 0) == sp_resolve_rt(rts@, method, cs@, i as int),
            cs@ == path@,
        decreases rts@.len() - i,
    {
        match tail_after(&cs, rts[i].resource_type.endpoint.as_str()) {
            Some(rest) => {
                if rest.as_str().is_empty() {
                    proof {
                        assert(rest@ =~= Seq::<char>::empty());
                    }
                    match method {
                        Method::Get => {
                            return Route::ListResources(i);
                        },
                        Method::Post => {
                            return Route::CreateResource(i);
                        },
                        _ => {
                            return Route::MethodNotAllowedRoute;
                        },
                    }
                } else if str_eq(rest.as_str(), ".search") {
                    if method == Method::Post {
                        return Route::SearchResources(i);
                    } else {
                        return Route::MethodNotAllowedRoute;
                    }
                } else if !has_slash(&rest) {
                    match method {
                        Method::Get => {
                            return Route::GetResource(i, rest);
                        },
                        Method::Put => {
                            return Route::PutResource(i, rest);
                        },
                        Method::Patch => {
                            return Route::PatchResource(i, rest);
                        },
                        Method::Delete => {
                            return Route::DeleteResource(i, rest);
                        },
                        Method::Post => {
                            return Route::MethodNotAllowedRoute;
                        },
                    }
                } else {
                    return Route::NotFoundRoute;
                }
            },
            None => {},
        }
        i = i + 1;
    }
    Route::NotFoundRoute
}

} // verus!

verus! {

/// Model of a manager operation.
pub enum SpecManagerOp {
    List(SpecListArgs),
    Get(SpecGetArgs),
    Create(SpecJson),
    Update(SpecUpdateArgs),
    Replace(Seq<char>, SpecJson),
    Delete(Seq<char>),
}

/// One operation for a resource manager.
#[derive(Debug, PartialEq, Eq)]
pub enum ManagerOp {
    /// List resources.
    List(ListResourceArgs),
    /// Get a resource by ID.
    Get(GetResourceArgs),
    /// Create a resource from the given document.
    Create(JsonValue),
    /// Apply update items to a resource.
    Update(UpdateResourceArgs),
    /// Replace a resource wholesale.
    Replace(String, JsonValue),
    /// Delete a resource by ID.
    Delete(String),
}

impl View for ManagerOp {
    type V = SpecManagerOp;

    open spec fn view(&self) -> SpecManagerOp {
        match self {
            ManagerOp::List(a) => SpecManagerOp::List(a@),
            ManagerOp::Get(a) => SpecManagerOp::Get(a@),
            ManagerOp::Create(v) => SpecManagerOp::Create(v@),
            ManagerOp::Update(a) => SpecManagerOp::Update(a@),
            ManagerOp::Replace(id, v) => SpecManagerOp::Replace(id@, v@),
            ManagerOp::Delete(id) => SpecManagerOp::Delete(id@),
        }
    }
}

/// Model of a manager call.
pub struct SpecManagerCall {
    pub resource_type: Seq<char>,
    pub op: SpecManagerOp,
}

/// A call for the host to place with the named resource type's manager.
#[derive(Debug, PartialEq, Eq)]
pub struct ManagerCall {
    /// The resource type whose manager is addressed.
    pub resource_type: String,
    /// The operation to perform.
    pub op: ManagerOp,
}

impl View for ManagerCall {
    type V = SpecManagerCall;

    open spec fn view(&self) -> SpecManagerCall {
        SpecManagerCall { resource_type: self.resource_type@, op: self.op@ }
    }
}

/// Model of a continuation.
pub enum SpecCont {
    FinishList { wire_start: nat },
    FinishGet,
    FinishCreated,
    AfterCreate { resource_type: Seq<char>, attributes: Seq<Seq<char>>, excluded: Seq<Seq<char>> },
    AfterUpdate {
        resource_type: Seq<char>,
        id: Seq<char>,
        attributes: Seq<Seq<char>>,
        excluded: Seq<Seq<char>>,
    },
    AfterReplace {
        resource_type: Seq<char>,
        id: Seq<char>,
        attributes: Seq<Seq<char>>,
        excluded: Seq<Seq<char>>,
    },
    FinishDelete,
}

/// What remains to be done once the pending manager call returns.
#[derive(Debug, PartialEq, Eq)]
pub enum Cont {
    /// Wrap a listing result in the response envelope.
    FinishList {
        /// The one-based start index to echo.
        wire_start: usize,
    },
    /// Answer with the retrieved resource.
    FinishGet,
    /// Answer with the retrieved resource and status 201.
    FinishCreated,
    /// After a create: fetch the new resource.
    AfterCreate {
        /// The resource type in play.
        resource_type: String,
        /// The raw include list for the follow-up retrieval.
        attributes: Vec<String>,
        /// The raw exclude list for the follow-up retrieval.
        excluded: Vec<String>,
    },
    /// After an update: fetch the changed resource.
    AfterUpdate {
        /// The resource type in play.
        resource_type: String,
        /// The changed resource's ID.
        id: String,
        /// The raw include list for the follow-up retrieval.
        attributes: Vec<String>,
        /// The raw exclude list for the follow-up retrieval.
        excluded: Vec<String>,
    },
    /// After a replace: fetch the changed resource.
    AfterReplace {
        /// The resource type in play.
        resource_type: String,
        /// The changed resource's ID.
        id: String,
        /// The raw include list for the follow-up retrieval.
        attributes: Vec<String>,
        /// The raw exclude list for the follow-up retrieval.
        excluded: Vec<String>,
    },
    /// Answer a delete with status 204 and no body.
    FinishDelete,
}

impl View for Cont {
    type V = SpecCont;

    open spec fn view(&self) -> SpecCont {
        match self {
            Cont::FinishList { wire_start } => SpecCont::FinishList {
                wire_start: *wire_start as nat,
            },
            Cont::FinishGet => SpecCont::FinishGet,
            Cont::FinishCreated => SpecCont::FinishCreated,
            Cont::AfterCreate { resource_type, attributes, excluded } => SpecCont::AfterCreate {
                resource_type: resource_type@,
                attributes: view_string_seq(attributes@),
                excluded: view_string_seq(excluded@),
            },
            Cont::AfterUpdate { resource_type, id, attributes, excluded } => SpecCont::AfterUpdate {
                resource_type: resource_type@,
                id: id@,
                attributes: view_string_seq(attributes@),
                excluded: view_string_seq(excluded@),
            },
            Cont::AfterReplace { resource_type, id, attributes, excluded } => SpecCont::AfterReplace {
                resource_type: resource_type@,
                id: id@,
                attributes: view_string_seq(attributes@),
                excluded: view_string_seq(excluded@),
            },
            Cont::FinishDelete => SpecCont::FinishDelete,
        }
    }
}

/// Models of a sequence of schemas, element-wise.
pub open spec fn view_schema_vals(vs: Seq<Schema>) -> Seq<crate::schema::SpecSchema>
    decreases vs,
{
    if vs.len() == 0 {
        Seq::empty()
    } else {
        view_schema_vals(vs.drop_last()).push(vs.last()@)
    }
}

/// Models of a sequence of resource types, element-wise.
pub open spec fn view_rt_vals(vs: Seq<ResourceType>) -> Seq<crate::resource_type::SpecResourceType>
    decreases vs,
{
    if vs.len() == 0 {
        Seq::empty()
    } else {
        view_rt_vals(vs.drop_last()).push(vs.last()@)
    }
}

/// Model of a response body.
pub enum SpecResponseBody {
    Empty,
    Resource(SpecJson),
    Listing {
        total_results: nat,
        start_index: nat,
        items_per_page: nat,
        resources: Seq<SpecJson>,
    },
    Config(crate::config::SpecConfig),
    SchemaDoc(crate::schema::SpecSchema),
    SchemaListing {
        total_results: nat,
        start_index: nat,
        items_per_page: nat,
        resources: Seq<crate::schema::SpecSchema>,
    },
    ResourceTypeDoc(crate::resource_type::SpecResourceType),
    ResourceTypeListing {
        total_results: nat,
        start_index: nat,
        items_per_page: nat,
        resources: Seq<crate::resource_type::SpecResourceType>,
    },
    ErrorDoc(SpecError),
}

/// The body of a response: a resource document, a listing envelope, a
/// discovery document, an error document, or nothing.  The host
/// serializes each with the matching `schemas` array and the
/// `application/scim+json` media type.
#[derive(Debug, PartialEq, Eq)]
pub enum ResponseBody {
    /// No body.
    Empty,
    /// A resource document as the manager returned it.
    Resource(JsonValue),
    /// A page of listed resources.
    Listing(ListResponse<JsonValue>),
    /// The service-provider configuration document.
    Config(ServiceProviderConfig),
    /// One schema document.
    SchemaDoc(Schema),
    /// The schema listing.
    SchemaListing(ListResponse<Schema>),
    /// One resource-type document.
    ResourceTypeDoc(ResourceType),
    /// The resource-type listing.
    ResourceTypeListing(ListResponse<ResourceType>),
    /// An error document.
    ErrorDoc(Error),
}

impl View for ResponseBody {
    type V = SpecResponseBody;

    open spec fn view(&self) -> SpecResponseBody {
        match self {
            ResponseBody::Empty => SpecResponseBody::Empty,
            ResponseBody::Resource(v) => SpecResponseBody::Resource(v@),
            ResponseBody::Listing(lr) => SpecResponseBody::Listing {
                total_results: lr.total_results as nat,
                start_index: lr.start_index as nat,
                items_per_page: lr.items_per_page as nat,
                resources: crate::json::view_json_seq(lr.resources@),
            },
            ResponseBody::Config(c) => SpecResponseBody::Config(c@),
            ResponseBody::SchemaDoc(s) => SpecResponseBody::SchemaDoc(s@),
            ResponseBody::SchemaListing(lr) => SpecResponseBody::SchemaListing {
                total_results: lr.total_results as nat,
                start_index: lr.start_index as nat,
                items_per_page: lr.items_per_page as nat,
                resources: view_schema_vals(lr.resources@),
            },
            ResponseBody::ResourceTypeDoc(rt) => SpecResponseBody::ResourceTypeDoc(rt@),
            ResponseBody::ResourceTypeListing(lr) => SpecResponseBody::ResourceTypeListing {
                total_results: lr.total_results as nat,
                start_index: lr.start_index as nat,
                items_per_page: lr.items_per_page as nat,
                resources: view_rt_vals(lr.resources@),
            },
            ResponseBody::ErrorDoc(e) => SpecResponseBody::ErrorDoc(e@),
        }
    }
}

/// Model of a response.
pub struct SpecResponse {
    pub status: int,
    pub body: SpecResponseBody,
}

/// A finished response: the HTTP status and the body.
#[derive(Debug, PartialEq, Eq)]
pub struct Response {
    /// The HTTP status code.
    pub status: u16,
    /// The response body.
    pub body: ResponseBody,
}

impl View for Response {
    type V = SpecResponse;

    open spec fn view(&self) -> SpecResponse {
        SpecResponse { status: self.status as int, body: self.body@ }
    }
}

/// Model of a dispatch step.
pub enum SpecStep {
    Done(SpecResponse),
    Call(SpecManagerCall, SpecCont),
}

/// One dispatch step: a finished response, or a manager call with the
/// continuation that consumes its result.
#[derive(Debug, PartialEq, Eq)]
pub enum Step {
    /// The request is answered.
    Done(Response),
    /// The host must place this call and hand the result to [`resume`].
    Call(ManagerCall, Cont),
}

impl View for Step {
    type V = SpecStep;

    open spec fn view(&self) -> SpecStep {
        match self {
            Step::Done(r) => SpecStep::Done(r@),
            Step::Call(c, k) => SpecStep::Call(c@, k@),
        }
    }
}

/// What a manager call produced, as the host hands it back.
#[derive(Debug, PartialEq, Eq)]
pub enum ManagerOutcome {
    /// The result of a list call.
    Listed(ListResourceResult<JsonValue>),
    /// The resource a get call returned.
    Resource(JsonValue),
    /// The ID a create call returned.
    Created(String),
    /// A call that returns nothing finished.
    Done,
}

/// Whether an outcome is of the kind the continuation awaits.
pub open spec fn sp_outcome_matches(cont: Cont, outcome: ManagerOutcome) -> bool {
    match cont {
        Cont::FinishList { .. } => outcome is Listed,
        Cont::FinishGet => outcome is Resource,
        Cont::FinishCreated => outcome is Resource,
        Cont::AfterCreate { .. } => outcome is Created,
        Cont::AfterUpdate { .. } => outcome is Done,
        Cont::AfterReplace { .. } => outcome is Done,
        Cont::FinishDelete => outcome is Done,
    }
}

/// The service-provider configuration document, located at
/// `/ServiceProviderConfig`.
pub fn get_service_provider_config(cream: &Cream) -> (r: ServiceProviderConfig)
    ensures
        r@ == (crate::config::SpecConfig {
            meta: crate::meta::SpecMeta {
                location: Some(
                    crate::reference::SpecReference::Relative("/ServiceProviderConfig"@),
                ),
                ..cream.config@.meta
            },
            ..cream.config@
        }),
{
    let mut c = crate::config::copy_config(&cream.config);
    c.meta.location = Some(crate::reference::Reference::new_relative("/ServiceProviderConfig"));
    c
}

/// The schemas, each located at `/Schemas/<id>`.
pub open spec fn sp_located_schemas(vs: Seq<Schema>) -> Seq<crate::schema::SpecSchema>
    decreases vs,
{
    if vs.len() == 0 {
        Seq::empty()
    } else {
        sp_located_schemas(vs.drop_last()).push(
            crate::schema::SpecSchema {
                meta: crate::meta::SpecMeta {
                    location: Some(
                        crate::reference::SpecReference::Relative("/Schemas/"@ + vs.last().id@),
                    ),
                    ..vs.last()@.meta
                },
                ..vs.last()@
            },
        )
    }
}

/// Lists the registered schemas, located, in the listing envelope.
pub fn list_schemas(cream: &Cream) -> (r: ListResponse<Schema>)
    requires
        cream.schemas@.len() < usize::MAX,
    ensures
        r.total_results == cream.schemas@.len(),
        r.start_index == 1,
        r.items_per_page == cream.schemas@.len() + 1,
        view_schema_vals(r.resources@) == sp_located_schemas(cream.schemas@),
{
    let mut resources: Vec<Schema> = Vec::new();
    let mut i: usize = 0;
    while i < cream.schemas.len()
        invariant
            i <= cream.schemas@.len(),
            resources@.len() == i,
            view_schema_vals(resources@) == sp_located_schemas(cream.schemas@.take(i as int)),
        decreases cream.schemas@.len() - i,
    {
        let ghost before = resources@;
        let mut s = crate::schema::copy_schema(&cream.schemas[i]);
        s.locate();
        proof {
            assert(s@ == (crate::schema::SpecSchema {
                meta: crate::meta::SpecMeta {
                    location: Some(
                        crate::reference::SpecReference::Relative(
                            "/Schemas/"@ + cream.schemas@[i as int].id@,
                        ),
                    ),
                    ..cream.schemas@[i as int]@.meta
                },
                ..cream.schemas@[i as int]@
            }));
        }
        resources.push(s);
        i = i + 1;
        proof {
            assert(resources@.drop_last() == before);
            assert(cream.schemas@.take(i as int).drop_last() =~= cream.schemas@.take(i as int - 1));
            assert(cream.schemas@.take(i as int).last() == cream.schemas@[i as int - 1]);
            assert(view_schema_vals(resources@) == view_schema_vals(before).push(
                resources@.last()@,
            ));
        }
    }
    proof {
        assert(cream.schemas@.take(cream.schemas@.len() as int) =~= cream.schemas@);
    }
    let n = resources.len();
    ListResponse { total_results: n, start_index: 1, items_per_page: n + 1, resources }
}

/// One schema by URN, located; nothing when the URN is unknown.
pub fn get_schema(cream: &Cream, id: &str) -> (r: Option<Schema>)
    ensures
        match &r {
            Some(s) => sp_lookup_schema(cream.schemas@, id@) matches Some(k) && s@
                == (crate::schema::SpecSchema {
                meta: crate::meta::SpecMeta {
                    location: Some(
                        crate::reference::SpecReference::Relative(
                            "/Schemas/"@ + cream.schemas@[k].id@,
                        ),
                    ),
                    ..cream.schemas@[k]@.meta
                },
                ..cream.schemas@[k]@
            }),
            None => sp_lookup_schema(cream.schemas@, id@) is None,
        },
{
    match lookup_schema(&cream.schemas, id) {
        Some(k) => {
            let mut s = crate::schema::copy_schema(&cream.schemas[k]);
            s.locate();
            Some(s)
        },
        None => None,
    }
}

/// The resource types, each located at `/ResourceTypes/<name>`.
pub open spec fn sp_located_rts(vs: Seq<ResourceTypeState>) -> Seq<
    crate::resource_type::SpecResourceType,
>
    decreases vs,
{
    if vs.len() == 0 {
        Seq::empty()
    } else {
        sp_located_rts(vs.drop_last()).push(
            crate::resource_type::SpecResourceType {
                meta: crate::meta::SpecMeta {
                    location: Some(
                        crate::reference::SpecReference::Relative(
                            "/ResourceTypes/"@ + vs.last().resource_type.name@,
                        ),
                    ),
                    ..vs.last().resource_type@.meta
                },
                ..vs.last().resource_type@
            },
        )
    }
}

/// Lists the registered resource types, located, in the listing
/// envelope.
pub fn list_resource_types(cream: &Cream) -> (r: ListResponse<ResourceType>)
    requires
        cream.resource_types@.len() < usize::MAX,
    ensures
        r.total_results == cream.resource_types@.len(),
        r.start_index == 1,
        r.items_per_page == cream.resource_types@.len() + 1,
        view_rt_vals(r.resources@) == sp_located_rts(cream.resource_types@),
{
    let mut resources: Vec<ResourceType> = Vec::new();
    let mut i: usize = 0;
    while i < cream.resource_types.len()
        invariant
            i <= cream.resource_types@.len(),
            resources@.len() == i,
            view_rt_vals(resources@) == sp_located_rts(cream.resource_types@.take(i as int)),
        decreases cream.resource_types@.len() - i,
    {
        let ghost before = resources@;
        let mut rt = crate::resource_type::copy_resource_type(
            &cream.resource_types[i].resource_type,
        );
        rt.locate();
        proof {
            assert(rt@ == (crate::resource_type::SpecResourceType {
                meta: crate::meta::SpecMeta {
                    location: Some(
                        crate::reference::SpecReference::Relative(
                            "/ResourceTypes/"@
                                + cream.resource_types@[i as int].resource_type.name@,
                        ),
                    ),
                    ..cream.resource_types@[i as int].resource_type@.meta
                },
                ..cream.resource_types@[i as int].resource_type@
            }));
        }
        resources.push(rt);
        i = i + 1;
        proof {
            assert(resources@.drop_last() == before);
            assert(cream.resource_types@.take(i as int).drop_last() =~= cream.resource_types@.take(
                i as int - 1,
            ));
            assert(cream.resource_types@.take(i as int).last() == cream.resource_types@[
                i as int - 1
            ]);
            assert(view_rt_vals(resources@) == view_rt_vals(before).push(resources@.last()@));
        }
    }
    proof {
        assert(cream.resource_types@.take(cream.resource_types@.len() as int)
            =~= cream.resource_types@);
    }
    let n = resources.len();
    ListResponse { total_results: n, start_index: 1, items_per_page: n + 1, resources }
}

/// One resource type by name, located; nothing when the name is
/// unknown.
pub fn get_resource_type(cream: &Cream, name: &str) -> (r: Option<ResourceType>)
    ensures
        match &r {
            Some(rt) => sp_lookup_rts(cream.resource_types@, name@) matches Some(k) && rt@
                == (crate::resource_type::SpecResourceType {
                meta: crate::meta::SpecMeta {
                    location: Some(
                        crate::reference::SpecReference::Relative(
                            "/ResourceTypes/"@
                                + cream.resource_types@[k].resource_type.name@,
                        ),
                    ),
                    ..cream.resource_types@[k].resource_type@.meta
                },
                ..cream.resource_types@[k].resource_type@
            }),
            None => sp_lookup_rts(cream.resource_types@, name@) is None,
        },
{
    match crate::state::lookup_rts(&cream.resource_types, name) {
        Some(k) => {
            let mut rt = crate::resource_type::copy_resource_type(
                &cream.resource_types[k].resource_type,
            );
            rt.locate();
            Some(rt)
        },
        None => None,
    }
}

} // verus!

verus! {

/// A 400 `invalidValue` error naming what was expected.
pub open spec fn sp_expected_err(what: Seq<char>) -> SpecError {
    SpecError { status: 400, scim_type: Some(ErrorType::InvalidValue), detail: "Expected "@ + what }
}

/// A 400 `invalidSyntax` error with the given detail.
pub open spec fn sp_syntax_err(detail: Seq<char>) -> SpecError {
    SpecError { status: 400, scim_type: Some(ErrorType::InvalidSyntax), detail }
}

/// The plain `invalidFilter` error.
pub open spec fn sp_invalid_filter_err() -> SpecError {
    SpecError { status: 400, scim_type: Some(ErrorType::InvalidFilter), detail: "Invalid Filter"@ }
}

/// The `notFound` error.
pub open spec fn sp_not_found_err() -> SpecError {
    SpecError { status: 404, scim_type: None, detail: "Not Found"@ }
}

/// The detail of a filter parse failure: the unconsumed input.
pub open spec fn sp_filter_err_detail(s: Seq<char>) -> Seq<char> {
    match sp_filter(s, 0) {
        Some((p, _)) => "Invalid filter: unexpected "@ + s.subrange(p, s.len() as int),
        None => "Invalid filter: "@ + s,
    }
}

/// The detail of a value-path parse failure: the unconsumed input.
pub open spec fn sp_path_err_detail(s: Seq<char>) -> Seq<char> {
    match sp_value_path(s, 0) {
        Some((p, _)) => "Invalid path: unexpected "@ + s.subrange(p, s.len() as int),
        None => "Invalid path: "@ + s,
    }
}

/// The detail of an attribute-path parse failure: the unconsumed input.
pub open spec fn sp_attr_path_err_detail(s: Seq<char>) -> Seq<char> {
    match sp_attr_path(s, 0) {
        Some((p, _)) => "Invalid attribute path: unexpected "@ + s.subrange(p, s.len() as int),
        None => "Invalid attribute path: "@ + s,
    }
}

/// A step that answers with the given error.
pub open spec fn sp_err_step(e: SpecError) -> SpecStep {
    SpecStep::Done(SpecResponse { status: e.status, body: SpecResponseBody::ErrorDoc(e) })
}

/// Raw listing arguments from the query pairs.  Unknown pairs are
/// ignored; a malformed `sortOrder`, `startIndex` or `count` is refused,
/// in that order.
pub open spec fn sp_list_args_query(q: Seq<(Seq<char>, Seq<char>)>) -> Result<
    SpecListQuery,
    SpecError,
> {
    let so = match sp_q_get(q, "sortOrder"@) {
        Some(t) => sp_sort_order_of(t),
        None => Some(SortOrder::Ascending),
    };
    match so {
        None => Err(sp_expected_err("sortOrder"@)),
        Some(sort_order) => {
            let si = match sp_q_get(q, "startIndex"@) {
                Some(t) => match sp_parse_usize(t) {
                    Some(v) => Some(Some(v)),
                    None => None,
                },
                None => Some(None),
            };
            match si {
                None => Err(sp_expected_err("startIndex"@)),
                Some(start_index) => {
                    let ct = match sp_q_get(q, "count"@) {
                        Some(t) => match sp_parse_usize(t) {
                            Some(v) => Some(Some(v)),
                            None => None,
                        },
                        None => Some(None),
                    };
                    match ct {
                        None => Err(sp_expected_err("count"@)),
                        Some(count) => Ok(
                            SpecListQuery {
                                filter: sp_q_get(q, "filter"@),
                                sort_by: sp_q_get(q, "sortBy"@),
                                sort_order,
                                start_index,
                                count,
                                attributes: match sp_q_get(q, "attributes"@) {
                                    Some(t) => sp_split_commas(t, 0),
                                    None => Seq::empty(),
                                },
                                excluded_attributes: match sp_q_get(q, "excludedAttributes"@) {
                                    Some(t) => sp_split_commas(t, 0),
                                    None => Seq::empty(),
                                },
                            },
                        ),
                    }
                },
            }
        },
    }
}

/// Reads raw listing arguments from the query pairs.
pub fn parse_list_args_query(q: &Vec<(String, String)>) -> (r: Result<ListResourcesArgs, Error>)
    ensures
        match &r {
            Ok(a) => sp_list_args_query(view_pairs(q@)) == Ok::<SpecListQuery, SpecError>(a@),
            Err(e) => sp_list_args_query(view_pairs(q@)) == Err::<SpecListQuery, SpecError>(e@),
        },
{
    let sort_order = match q_get(q, "sortOrder") {
        Some(t) => {
            match parse_sort_order(t.as_str()) {
                Some(o) => o,
                None => {
                    return Err(Error::expected("sortOrder"));
                },
            }
        },
        None => SortOrder::Ascending,
    };
    let start_index = match q_get(q, "startIndex") {
        Some(t) => {
            match parse_usize(t.as_str()) {
                Some(v) => Some(v),
                None => {
                    return Err(Error::expected("startIndex"));
                },
            }
        },
        None => None,
    };
    let count = match q_get(q, "count") {
        Some(t) => {
            match parse_usize(t.as_str()) {
                Some(v) => Some(v),
                None => {
                    return Err(Error::expected("count"));
                },
            }
        },
        None => None,
    };
    let filter = match q_get(q, "filter") {
        Some(t) => Some(t.clone()),
        None => None,
    };
    let sort_by = match q_get(q, "sortBy") {
        Some(t) => Some(t.clone()),
        None => None,
    };
    let attributes = match q_get(q, "attributes") {
        Some(t) => split_commas(t.as_str()),
        None => Vec::new(),
    };
    let excluded_attributes = match q_get(q, "excludedAttributes") {
        Some(t) => split_commas(t.as_str()),
        None => Vec::new(),
    };
    proof {
        assert(view_string_seq(Seq::<String>::empty()) =~= Seq::<Seq<char>>::empty());
    }
    Ok(
        ListResourcesArgs {
            filter,
            sort_by,
            sort_order,
            start_index,
            count,
            attributes,
            excluded_attributes,
        },
    )
}

/// The texts of a JSON array of strings; nothing when some element is
/// not a string.
pub open spec fn sp_json_strings(vs: Seq<SpecJson>) -> Option<Seq<Seq<char>>>
    decreases vs,
{
    if vs.len() == 0 {
        Some(Seq::empty())
    } else {
        match vs.first() {
            SpecJson::Str(t) => match sp_json_strings(vs.drop_first()) {
                Some(rest) => Some(seq![t] + rest),
                None => None,
            },
            _ => None,
        }
    }
}

/// A selection list from a JSON value: absent means empty, a string is
/// split at commas, an array must hold strings.
pub open spec fn sp_attr_list(v: Option<SpecJson>) -> Option<Seq<Seq<char>>> {
    match v {
        None => Some(Seq::empty()),
        Some(SpecJson::Str(t)) => Some(sp_split_commas(t, 0)),
        Some(SpecJson::Array(vs)) => sp_json_strings(vs),
        Some(_) => None,
    }
}

/// Raw listing arguments from a JSON search body.
pub open spec fn sp_list_args_body(v: SpecJson) -> Result<SpecListQuery, SpecError> {
    match v {
        SpecJson::Object(es) => {
            let f = match spec_obj_get(es, "filter"@) {
                None => Some(None),
                Some(SpecJson::Str(t)) => Some(Some(t)),
                Some(_) => None,
            };
            match f {
                None => Err(sp_expected_err("filter"@)),
                Some(filter) => {
                    let sb = match spec_obj_get(es, "sortBy"@) {
                        None => Some(None),
                        Some(SpecJson::Str(t)) => Some(Some(t)),
                        Some(_) => None,
                    };
                    match sb {
                        None => Err(sp_expected_err("sortBy"@)),
                        Some(sort_by) => {
                            let so = match spec_obj_get(es, "sortOrder"@) {
                                None => Some(SortOrder::Ascending),
                                Some(SpecJson::Str(t)) => sp_sort_order_of(t),
                                Some(_) => None,
                            };
                            match so {
                                None => Err(sp_expected_err("sortOrder"@)),
                                Some(sort_order) => {
                                    let si = match spec_obj_get(es, "startIndex"@) {
                                        None => Some(None),
                                        Some(SpecJson::Num(t)) => match sp_parse_usize(t) {
                                            Some(n) => Some(Some(n)),
                                            None => None,
                                        },
                                        Some(_) => None,
                                    };
                                    match si {
                                        None => Err(sp_expected_err("startIndex"@)),
                                        Some(start_index) => {
                                            let ct = match spec_obj_get(es, "count"@) {
                                                None => Some(None),
                                                Some(SpecJson::Num(t)) => match sp_parse_usize(t) {
                                                    Some(n) => Some(Some(n)),
                                                    None => None,
                                                },
                                                Some(_) => None,
                                            };
                                            match ct {
                                                None => Err(sp_expected_err("count"@)),
                                                Some(count) => {
                                                    let at = sp_attr_list(
                                                        spec_obj_get(es, "attributes"@),
                                                    );
                                                    match at {
                                                        None => Err(
                                                            sp_expected_err("attributes"@),
                                                        ),
                                                        Some(attributes) => {
                                                            let ex = sp_attr_list(
                                                                spec_obj_get(
                                                                    es,
                                                                    "excludedAttributes"@,
                                                                ),
                                                            );
                                                            match ex {
                                                                None => Err(
                                                                    sp_expected_err(
                                                                        "excludedAttributes"@,
                                                                    ),
                                                                ),
                                                                Some(excluded_attributes) => Ok(
                                                                    SpecListQuery {
                                                                        filter,
                                                                        sort_by,
                                                                        sort_order,
                                                                        start_index,
                                                                        count,
                                                                        attributes,
                                                                        excluded_attributes,
                                                                    },
                                                                ),
                                                            }
                                                        },
                                                    }
                                                },
                                            }
                                        },
                                    }
                                },
                            }
                        },
                    }
                },
            }
        },
        _ => Err(sp_syntax_err("Expected search request"@)),
    }
}

/// Reads the texts of a JSON array of strings.
fn json_strings(vs: &Vec<JsonValue>) -> (r: Option<Vec<String>>)
    ensures
        match &r {
            Some(ts) => sp_json_strings(crate::json::view_json_seq(vs@)) == Some(
                view_string_seq(ts@),
            ),
            None => sp_json_strings(crate::json::view_json_seq(vs@)) is None,
        },
{
    let ghost svs = crate::json::view_json_seq(vs@);
    proof {
        crate::json::lemma_view_json_seq(vs@);
        assert(svs.skip(0) =~= svs);
    }
    let mut ts: Vec<String> = Vec::new();
    let mut i: usize = 0;
    while i < vs.len()
        invariant
            i <= vs@.len(),
            svs == crate::json::view_json_seq(vs@),
            svs.len() == vs@.len(),
            forall|k: int| 0 <= k < vs@.len() ==> svs[k] == #[trigger] vs@[k]@,
            sp_json_strings(svs) == match sp_json_strings(svs.skip(i as int)) {
                Some(rest) => Some(view_string_seq(ts@) + rest),
                None => None::<Seq<Seq<char>>>,
            },
        decreases vs@.len() - i,
    {
        proof {
            assert(svs[i as int] == vs@[i as int]@);
            assert(svs.skip(i as int).first() == svs[i as int]);
            assert(svs.skip(i as int).drop_first() =~= svs.skip(i as int + 1));
        }
        match &vs[i] {
            JsonValue::Str(t) => {
                let ghost before = ts@;
                ts.push(t.clone());
                proof {
                    assert(ts@.drop_last() == before);
                    assert(view_string_seq(ts@) == view_string_seq(before).push(t@));
                    match sp_json_strings(svs.skip(i as int + 1)) {
                        Some(rest) => {
                            assert(view_string_seq(before) + (seq![t@] + rest) =~= view_string_seq(
                                ts@,
                            ) + rest);
                        },
                        None => {},
                    }
                }
            },
            _ => {
                return None;
            },
        }
        i = i + 1;
    }
    proof {
        assert(svs.skip(vs@.len() as int).len() == 0);
        assert(view_string_seq(ts@) + Seq::<Seq<char>>::empty() =~= view_string_seq(ts@));
    }
    Some(ts)
}

/// Reads a selection list from a JSON value.
fn attr_list(v: Option<&JsonValue>) -> (r: Option<Vec<String>>)
    ensures
        match (&r, v) {
            (Some(ts), Some(w)) => sp_attr_list(Some(w@)) == Some(view_string_seq(ts@)),
            (Some(ts), None) => sp_attr_list(None) == Some(view_string_seq(ts@)),
            (None, Some(w)) => sp_attr_list(Some(w@)) is None,
            (None, None) => false,
        },
{
    match v {
        None => {
            let ts: Vec<String> = Vec::new();
            proof {
                assert(view_string_seq(ts@) =~= Seq::<Seq<char>>::empty());
            }
            Some(ts)
        },
        Some(JsonValue::Str(t)) => Some(split_commas(t.as_str())),
        Some(JsonValue::Array(vs)) => json_strings(vs),
        Some(_) => None,
    }
}

/// Reads raw listing arguments from a JSON search body.
pub fn parse_list_args_body(v: &JsonValue) -> (r: Result<ListResourcesArgs, Error>)
    ensures
        match &r {
            Ok(a) => sp_list_args_body(v@) == Ok::<SpecListQuery, SpecError>(a@),
            Err(e) => sp_list_args_body(v@) == Err::<SpecListQuery, SpecError>(e@),
        },
{
    match v {
        JsonValue::Object(es) => {
            let filter = match obj_get(es, "filter") {
                None => None,
                Some(JsonValue::Str(t)) => Some(t.clone()),
                Some(_) => {
                    return Err(Error::expected("filter"));
                },
            };
            let sort_by = match obj_get(es, "sortBy") {
                None => None,
                Some(JsonValue::Str(t)) => Some(t.clone()),
                Some(_) => {
                    return Err(Error::expected("sortBy"));
                },
            };
            let sort_order = match obj_get(es, "sortOrder") {
                None => SortOrder::Ascending,
                Some(JsonValue::Str(t)) => {
                    match parse_sort_order(t.as_str()) {
                        Some(o) => o,
                        None => {
                            return Err(Error::expected("sortOrder"));
                        },
                    }
                },
                Some(_) => {
                    return Err(Error::expected("sortOrder"));
                },
            };
            let start_index = match obj_get(es, "startIndex") {
                None => None,
                Some(JsonValue::Num(t)) => {
                    match parse_usize(t.as_str()) {
                        Some(n) => Some(n),
                        None => {
                            return Err(Error::expected("startIndex"));
                        },
                    }
                },
                Some(_) => {
                    return Err(Error::expected("startIndex"));
                },
            };
            let count = match obj_get(es, "count") {
                None => None,
                Some(JsonValue::Num(t)) => {
                    match parse_usize(t.as_str()) {
                        Some(n) => Some(n),
                        None => {
                            return Err(Error::expected("count"));
                        },
                    }
                },
                Some(_) => {
                    return Err(Error::expected("count"));
                },
            };
            let attributes = match attr_list(obj_get(es, "attributes")) {
                Some(ts) => ts,
                None => {
                    return Err(Error::expected("attributes"));
                },
            };
            let excluded_attributes = match attr_list(obj_get(es, "excludedAttributes")) {
                Some(ts) => ts,
                None => {
                    return Err(Error::expected("excludedAttributes"));
                },
            };
            Ok(
                ListResourcesArgs {
                    filter,
                    sort_by,
                    sort_order,
                    start_index,
                    count,
                    attributes,
                    excluded_attributes,
                },
            )
        },
        _ => Err(
            Error::new(
                400,
                Some(ErrorType::InvalidSyntax),
                String::from_str("Expected search request"),
            ),
        ),
    }
}

} // verus!

verus! {

/// The registered core schema of resource type `i`.
pub open spec fn sp_core_view(cream: Cream, i: int) -> crate::schema::SpecSchema {
    match sp_lookup_schema(cream.schemas@, cream.resource_types@[i].resource_type.schema@) {
        Some(k) => cream.schemas@[k]@,
        None => cream.schemas@[0]@,
    }
}

/// The registered extension schemas of a resource type, in declaration
/// order; an unregistered URN contributes nothing.
pub open spec fn sp_ext_views(
    schemas: Seq<Schema>,
    exts: Seq<crate::resource_type::SchemaExtension>,
) -> Seq<crate::schema::SpecSchema>
    decreases exts,
{
    if exts.len() == 0 {
        Seq::empty()
    } else {
        let rest = sp_ext_views(schemas, exts.drop_last());
        match sp_lookup_schema(schemas, exts.last().schema@) {
            Some(k) => rest.push(schemas[k]@),
            None => rest,
        }
    }
}

/// Borrows the core schema and the extension schemas of resource type
/// `i` from the registry.
fn core_and_exts<'a>(cream: &'a Cream, i: usize) -> (r: (&'a Schema, Vec<&'a Schema>))
    requires
        sp_cream_wf(*cream),
        i < cream.resource_types@.len(),
    ensures
        r.0@ == sp_core_view(*cream, i as int),
        view_schemas(r.1@) == sp_ext_views(
            cream.schemas@,
            cream.resource_types@[i as int].resource_type.schema_extensions@,
        ),
{
    let rt = &cream.resource_types[i].resource_type;
    proof {
        assert(cream.resource_types@[i as int].resource_type == *rt);
        lemma_lookup_schema(cream.schemas@, rt.schema@);
    }
    let core: &Schema = match lookup_schema(&cream.schemas, rt.schema.as_str()) {
        Some(k) => &cream.schemas[k],
        None => {
            proof {
                assert(false);
            }
            &cream.schemas[0]
        },
    };
    let ghost sexts = rt.schema_extensions@;
    let mut exts: Vec<&Schema> = Vec::new();
    let mut j: usize = 0;
    while j < rt.schema_extensions.len()
        invariant
            j <= sexts.len(),
            sexts == rt.schema_extensions@,
            *rt == cream.resource_types@[i as int].resource_type,
            view_schemas(exts@) == sp_ext_views(cream.schemas@, sexts.take(j as int)),
        decreases sexts.len() - j,
    {
        let ghost before = exts@;
        match lookup_schema(&cream.schemas, rt.schema_extensions[j].schema.as_str()) {
            Some(k) => {
                proof {
                    lemma_lookup_schema(cream.schemas@, sexts[j as int].schema@);
                }
                exts.push(&cream.schemas[k]);
                proof {
                    assert(exts@.drop_last() == before);
                    assert(view_schemas(exts@) == view_schemas(before).push(
                        cream.schemas@[k as int]@,
                    ));
                }
            },
            None => {},
        }
        j = j + 1;
        proof {
            assert(sexts.take(j as int).drop_last() =~= sexts.take(j as int - 1));
            assert(sexts.take(j as int).last() == sexts[j as int - 1]);
        }
    }
    proof {
        assert(sexts.take(sexts.len() as int) =~= sexts);
    }
    (core, exts)
}

/// Attribute-path decoding of a selection list: each name is parsed and
/// normalized; the first malformed one is refused as an invalid path.
pub open spec fn sp_decode_fix(
    corev: crate::schema::SpecSchema,
    extv: Seq<crate::schema::SpecSchema>,
    names: Seq<Seq<char>>,
) -> Result<Seq<SpecAttrPath>, SpecError>
    decreases names,
{
    if names.len() == 0 {
        Ok(Seq::empty())
    } else {
        match sp_parse_attr_path(names.first()) {
            Some(p) => match sp_decode_fix(corev, extv, names.drop_first()) {
                Ok(rest) => Ok(seq![sp_visit_path(corev, extv, None, p)] + rest),
                Err(e) => Err(e),
            },
            None => Err(
                SpecError {
                    status: 400,
                    scim_type: Some(ErrorType::InvalidPath),
                    detail: sp_attr_path_err_detail(names.first()),
                },
            ),
        }
    }
}

/// Decodes and normalizes a selection list of attribute paths.
fn decode_fix_attrs(core: &Schema, exts: &Vec<&Schema>, names: &Vec<String>) -> (r: Result<
    Vec<AttrPath>,
    Error,
>)
    ensures
        match &r {
            Ok(ps) => sp_decode_fix(core@, view_schemas(exts@), view_string_seq(names@)) == Ok::<
                Seq<SpecAttrPath>,
                SpecError,
            >(view_paths(ps@)),
            Err(e) => sp_decode_fix(core@, view_schemas(exts@), view_string_seq(names@)) == Err::<
                Seq<SpecAttrPath>,
                SpecError,
            >(e@),
        },
{
    let ghost snames = view_string_seq(names@);
    proof {
        lemma_view_string_seq(names@);
        assert(snames.skip(0) =~= snames);
        assert(view_paths(Seq::<AttrPath>::empty()) =~= Seq::<SpecAttrPath>::empty());
    }
    let mut acc: Vec<AttrPath> = Vec::new();
    let mut i: usize = 0;
    while i < names.len()
        invariant
            i <= names@.len(),
            snames == view_string_seq(names@),
            snames.len() == names@.len(),
            forall|k: int| 0 <= k < names@.len() ==> snames[k] == #[trigger] names@[k]@,
            sp_decode_fix(core@, view_schemas(exts@), snames) == match sp_decode_fix(
                core@,
                view_schemas(exts@),
                snames.skip(i as int),
            ) {
                Ok(rest) => Ok::<Seq<SpecAttrPath>, SpecError>(view_paths(acc@) + rest),
                Err(e) => Err::<Seq<SpecAttrPath>, SpecError>(e),
            },
        decreases names@.len() - i,
    {
        proof {
            assert(snames[i as int] == names@[i as int]@);
            assert(snames.skip(i as int).first() == snames[i as int]);
            assert(snames.skip(i as int).drop_first() =~= snames.skip(i as int + 1));
        }
        match parse_attr_path(names[i].as_str()) {
            Ok(mut p) => {
                visit_attr_path(core, exts, None, &mut p);
                let ghost before = acc@;
                let ghost pv = p@;
                acc.push(p);
                proof {
                    assert(acc@.drop_last() == before);
                    assert(view_paths(acc@) == view_paths(before).push(pv));
                    match sp_decode_fix(core@, view_schemas(exts@), snames.skip(i as int + 1)) {
                        Ok(rest) => {
                            assert(view_paths(before) + (seq![pv] + rest) =~= view_paths(acc@)
                                + rest);
                        },
                        Err(_) => {},
                    }
                }
            },
            Err(e) => {
                return Err(e);
            },
        }
        i = i + 1;
    }
    proof {
        assert(snames.skip(names@.len() as int).len() == 0);
        assert(view_paths(acc@) + Seq::<SpecAttrPath>::empty() =~= view_paths(acc@));
    }
    Ok(acc)
}

/// The full optional-attribute selection: the core schema's, then each
/// extension schema's, in order.
pub open spec fn sp_optional_all(
    corev: crate::schema::SpecSchema,
    extv: Seq<crate::schema::SpecSchema>,
    inc: Seq<SpecAttrPath>,
    exc: Seq<SpecAttrPath>,
) -> Seq<SpecAttrPath>
    decreases extv,
{
    if extv.len() == 0 {
        sp_optional_attributes(corev, inc, exc, true)
    } else {
        sp_optional_all(corev, extv.drop_last(), inc, exc) + sp_optional_attributes(
            extv.last(),
            inc,
            exc,
            false,
        )
    }
}

/// Computes the full optional-attribute selection over the core schema
/// and the extensions.
fn optional_all(
    core: &Schema,
    exts: &Vec<&Schema>,
    included: &Vec<AttrPath>,
    excluded: &Vec<AttrPath>,
) -> (r: Vec<AttrPath>)
    ensures
        view_paths(r@) == sp_optional_all(
            core@,
            view_schemas(exts@),
            view_paths(included@),
            view_paths(excluded@),
        ),
{
    let ghost sexts = view_schemas(exts@);
    proof {
        lemma_view_schemas(exts@);
        assert(sexts.take(0) =~= Seq::<crate::schema::SpecSchema>::empty());
    }
    let mut out = list_optional_attributes(core, included, excluded, true);
    let mut j: usize = 0;
    while j < exts.len()
        invariant
            j <= exts@.len(),
            sexts == view_schemas(exts@),
            sexts.len() == exts@.len(),
            forall|k: int| 0 <= k < exts@.len() ==> sexts[k] == #[trigger] exts@[k]@,
            view_paths(out@) == sp_optional_all(
                core@,
                sexts.take(j as int),
                view_paths(included@),
                view_paths(excluded@),
            ),
        decreases exts@.len() - j,
    {
        proof {
            assert(sexts[j as int] == exts@[j as int]@);
        }
        let ghost before = out@;
        let mut more = list_optional_attributes(exts[j], included, excluded, false);
        let ghost more0 = more@;
        out.append(&mut more);
        j = j + 1;
        proof {
            crate::select::lemma_view_paths_concat(before, more0);
            assert(sexts.take(j as int).drop_last() =~= sexts.take(j as int - 1));
            assert(sexts.take(j as int).last() == sexts[j as int - 1]);
        }
    }
    proof {
        assert(sexts.take(exts@.len() as int) =~= sexts);
    }
    out
}

/// The optional-attribute selection for one resource type under the two
/// raw name lists.
pub open spec fn sp_prepare_optional(
    cream: Cream,
    i: int,
    att: Seq<Seq<char>>,
    exc: Seq<Seq<char>>,
) -> Result<Seq<SpecAttrPath>, SpecError> {
    let corev = sp_core_view(cream, i);
    let extv = sp_ext_views(
        cream.schemas@,
        cream.resource_types@[i].resource_type.schema_extensions@,
    );
    match sp_decode_fix(corev, extv, att) {
        Err(e) => Err(e),
        Ok(inc) => match sp_decode_fix(corev, extv, exc) {
            Err(e) => Err(e),
            Ok(excp) => Ok(sp_optional_all(corev, extv, inc, excp)),
        },
    }
}

/// Computes the optional-attribute selection for one resource type under
/// the two raw name lists.
fn prepare_optional(cream: &Cream, i: usize, att: &Vec<String>, exc: &Vec<String>) -> (r: Result<
    Vec<AttrPath>,
    Error,
>)
    requires
        sp_cream_wf(*cream),
        i < cream.resource_types@.len(),
    ensures
        match &r {
            Ok(ps) => sp_prepare_optional(
                *cream,
                i as int,
                view_string_seq(att@),
                view_string_seq(exc@),
            ) == Ok::<Seq<SpecAttrPath>, SpecError>(view_paths(ps@)),
            Err(e) => sp_prepare_optional(
                *cream,
                i as int,
                view_string_seq(att@),
                view_string_seq(exc@),
            ) == Err::<Seq<SpecAttrPath>, SpecError>(e@),
        },
{
    let (core, exts) = core_and_exts(cream, i);
    let inc = match decode_fix_attrs(core, &exts, att) {
        Ok(ps) => ps,
        Err(e) => {
            return Err(e);
        },
    };
    let exc_paths = match decode_fix_attrs(core, &exts, exc) {
        Ok(ps) => ps,
        Err(e) => {
            return Err(e);
        },
    };
    Ok(optional_all(core, &exts, &inc, &exc_paths))
}

/// Canonical listing arguments from raw ones, with the filter already
/// parsed: the filter and sort path are normalized, the one-based start
/// index becomes zero-based (absent means first), an absent count takes
/// the manager's page size, and the selection is resolved.
pub open spec fn sp_prepare_rest(
    cream: Cream,
    i: int,
    q: SpecListQuery,
    filter: Option<SpecFilter>,
) -> Result<(SpecListArgs, nat), SpecError> {
    let corev = sp_core_view(cream, i);
    let extv = sp_ext_views(
        cream.schemas@,
        cream.resource_types@[i].resource_type.schema_extensions@,
    );
    let vf = match filter {
        Some(f) => Some(sp_visit_filter(corev, extv, None, f)),
        None => None,
    };
    let sb = match q.sort_by {
        Some(t) => match sp_parse_attr_path(t) {
            Some(p) => Some(Some(sp_visit_path(corev, extv, None, p))),
            None => None,
        },
        None => Some(None),
    };
    match sb {
        None => Err(
            SpecError {
                status: 400,
                scim_type: Some(ErrorType::InvalidPath),
                detail: sp_attr_path_err_detail(q.sort_by.unwrap()),
            },
        ),
        Some(sort_by) => {
            match sp_decode_fix(corev, extv, q.attributes) {
                Err(e) => Err(e),
                Ok(inc) => match sp_decode_fix(corev, extv, q.excluded_attributes) {
                    Err(e) => Err(e),
                    Ok(excp) => {
                        let wire = match q.start_index {
                            Some(v) => v,
                            None => 1,
                        };
                        let zero = if wire >= 1 {
                            (wire - 1) as nat
                        } else {
                            0
                        };
                        let count = match q.count {
                            Some(c) => c,
                            None => cream.resource_types@[i].page_size as nat,
                        };
                        Ok(
                            (
                                SpecListArgs {
                                    filter: vf,
                                    sort_by,
                                    sort_order: q.sort_order,
                                    start_index: zero,
                                    count,
                                    optional_attributes: sp_optional_all(corev, extv, inc, excp),
                                },
                                wire,
                            ),
                        )
                    },
                },
            }
        },
    }
}

/// Builds canonical listing arguments from raw ones and an already
/// parsed filter.
fn prepare_rest(cream: &Cream, i: usize, args: ListResourcesArgs, filter: Option<Filter>) -> (r:
    Result<(ListResourceArgs, usize), Error>)
    requires
        sp_cream_wf(*cream),
        i < cream.resource_types@.len(),
    ensures
        match &r {
            Ok((a, ws)) => sp_prepare_rest(
                *cream,
                i as int,
                args@,
                match &filter {
                    Some(f) => Some(f@),
                    None => None,
                },
            ) == Ok::<(SpecListArgs, nat), SpecError>((a@, *ws as nat)),
            Err(e) => sp_prepare_rest(
                *cream,
                i as int,
                args@,
                match &filter {
                    Some(f) => Some(f@),
                    None => None,
                },
            ) == Err::<(SpecListArgs, nat), SpecError>(e@),
        },
{
    let (core, exts) = core_and_exts(cream, i);
    let vf = match filter {
        Some(f) => Some(visit_filter(core, &exts, None, f)),
        None => None,
    };
    let sort_by = match &args.sort_by {
        Some(t) => {
            match parse_attr_path(t.as_str()) {
                Ok(mut p) => {
                    visit_attr_path(core, &exts, None, &mut p);
                    Some(p)
                },
                Err(e) => {
                    return Err(e);
                },
            }
        },
        None => None,
    };
    let inc = match decode_fix_attrs(core, &exts, &args.attributes) {
        Ok(ps) => ps,
        Err(e) => {
            return Err(e);
        },
    };
    let exc_paths = match decode_fix_attrs(core, &exts, &args.excluded_attributes) {
        Ok(ps) => ps,
        Err(e) => {
            return Err(e);
        },
    };
    let optional = optional_all(core, &exts, &inc, &exc_paths);
    let wire: usize = match args.start_index {
        Some(v) => v,
        None => 1,
    };
    let zero: usize = if wire >= 1 {
        wire - 1
    } else {
        0
    };
    let count: usize = match args.count {
        Some(c) => c,
        None => cream.resource_types[i].page_size,
    };
    Ok(
        (
            ListResourceArgs {
                filter: vf,
                sort_by,
                sort_order: args.sort_order,
                start_index: zero,
                count,
                optional_attributes: optional,
            },
            wire,
        ),
    )
}

/// Canonical listing arguments from raw ones: the filter text is parsed
/// first, then everything else as [`sp_prepare_rest`].
pub open spec fn sp_prepare_list(cream: Cream, i: int, q: SpecListQuery) -> Result<
    (SpecListArgs, nat),
    SpecError,
> {
    match q.filter {
        Some(t) => match sp_parse_filter(t) {
            Some(f) => sp_prepare_rest(cream, i, q, Some(f)),
            None => Err(
                SpecError {
                    status: 400,
                    scim_type: Some(ErrorType::InvalidFilter),
                    detail: sp_filter_err_detail(t),
                },
            ),
        },
        None => sp_prepare_rest(cream, i, q, None),
    }
}

/// Builds canonical listing arguments from raw ones.
fn prepare_list(cream: &Cream, i: usize, args: ListResourcesArgs) -> (r: Result<
    (ListResourceArgs, usize),
    Error,
>)
    requires
        sp_cream_wf(*cream),
        i < cream.resource_types@.len(),
    ensures
        match &r {
            Ok((a, ws)) => sp_prepare_list(*cream, i as int, args@) == Ok::<
                (SpecListArgs, nat),
                SpecError,
            >((a@, *ws as nat)),
            Err(e) => sp_prepare_list(*cream, i as int, args@) == Err::<
                (SpecListArgs, nat),
                SpecError,
            >(e@),
        },
{
    match &args.filter {
        Some(t) => {
            match parse_filter(t.as_str()) {
                Ok(f) => prepare_rest(cream, i, args, Some(f)),
                Err(e) => Err(e),
            }
        },
        None => prepare_rest(cream, i, args, None),
    }
}

} // verus!

verus! {

/// Models of a sequence of PATCH operations, element-wise.
pub open spec fn view_patch_ops(vs: Seq<PatchOperation>) -> Seq<crate::update::SpecPatchOperation>
    decreases vs,
{
    if vs.len() == 0 {
        Seq::empty()
    } else {
        view_patch_ops(vs.drop_last()).push(vs.last()@)
    }
}

/// Takes the value under the first entry with the given key out of a
/// JSON object's entries.
fn obj_take(mut es: Vec<(String, JsonValue)>, key: &str) -> (r: Option<JsonValue>)
    ensures
        match &r {
            Some(v) => spec_obj_get(view_json_entries(es@), key@) == Some(v@),
            None => spec_obj_get(view_json_entries(es@), key@) is None,
        },
{
    let ghost all = es@;
    loop
        invariant
            spec_obj_get(view_json_entries(all), key@) == spec_obj_get(
                view_json_entries(es@),
                key@,
            ),
        ensures
            spec_obj_get(view_json_entries(all), key@) == spec_obj_get(
                view_json_entries(es@),
                key@,
            ),
            es@.len() == 0 || view_json_entries(es@).first().0 == key@,
        decreases es@.len(),
    {
        if es.len() == 0 {
            proof {
                crate::json::lemma_view_json_entries(es@);
            }
            break;
        }
        let ghost before = es@;
        proof {
            crate::json::lemma_view_json_entries(before);
            assert(view_json_entries(before).first() == (before[0].0@, before[0].1@));
        }
        if str_eq(es[0].0.as_str(), key) {
            break;
        }
        let _ = es.remove(0);
        proof {
            crate::json::lemma_view_json_entries(es@);
            assert(before.drop_first() =~= es@);
            assert forall|k: int| 0 <= k < es@.len() implies view_json_entries(
                before,
            ).drop_first()[k] == view_json_entries(es@)[k] by {
                assert(view_json_entries(before)[k + 1] == (before[k + 1].0@, before[k + 1].1@));
                assert(before[k + 1] == es@[k]);
                assert(view_json_entries(es@)[k] == (es@[k].0@, es@[k].1@));
            }
            assert(view_json_entries(before).drop_first() =~= view_json_entries(es@));
        }
    }
    if es.len() == 0 {
        proof {
            crate::json::lemma_view_json_entries(es@);
        }
        None
    } else {
        let ghost es0 = es@;
        proof {
            crate::json::lemma_view_json_entries(es0);
            assert(view_json_entries(es0).first() == (es0[0].0@, es0[0].1@));
        }
        let hd = es.remove(0);
        proof {
            assert(hd == es0[0]);
        }
        Some(hd.1)
    }
}

/// The PATCH operations of a parsed operation list, in document order;
/// a malformed entry is refused.
pub open spec fn sp_patch_ops_list(vs: Seq<SpecJson>) -> Result<
    Seq<crate::update::SpecPatchOperation>,
    SpecError,
>
    decreases vs,
{
    if vs.len() == 0 {
        Ok(Seq::empty())
    } else {
        match vs.first() {
            SpecJson::Object(oes) => {
                let opk = match spec_obj_get(oes, "op"@) {
                    Some(SpecJson::Str(t)) => {
                        if crate::text::seq_ieq(t, "add"@) {
                            Ok(PatchOperationType::Add)
                        } else if crate::text::seq_ieq(t, "replace"@) {
                            Ok(PatchOperationType::Replace)
                        } else if crate::text::seq_ieq(t, "remove"@) {
                            Ok(PatchOperationType::Remove)
                        } else {
                            Err(sp_expected_err("Patch Operation"@))
                        }
                    },
                    _ => Err(sp_syntax_err("Expected op"@)),
                };
                match opk {
                    Err(e) => Err(e),
                    Ok(op) => {
                        let pt = match spec_obj_get(oes, "path"@) {
                            None => Ok(Seq::<char>::empty()),
                            Some(SpecJson::Str(t)) => Ok(t),
                            Some(_) => Err(sp_syntax_err("Expected path"@)),
                        };
                        match pt {
                            Err(e) => Err(e),
                            Ok(path) => {
                                let value = match spec_obj_get(oes, "value"@) {
                                    Some(v) => v,
                                    None => SpecJson::Null,
                                };
                                match sp_patch_ops_list(vs.drop_first()) {
                                    Ok(rest) => Ok(
                                        seq![
                                            crate::update::SpecPatchOperation { op, path, value },
                                        ] + rest,
                                    ),
                                    Err(e) => Err(e),
                                }
                            },
                        }
                    },
                }
            },
            _ => Err(sp_syntax_err("Expected patch operation"@)),
        }
    }
}

/// The PATCH operations of a PATCH document: the `Operations` array of
/// the request object.
pub open spec fn sp_parse_patch_ops(v: SpecJson) -> Result<
    Seq<crate::update::SpecPatchOperation>,
    SpecError,
> {
    match v {
        SpecJson::Object(es) => match spec_obj_get(es, "Operations"@) {
            Some(SpecJson::Array(vs)) => sp_patch_ops_list(vs),
            _ => Err(sp_syntax_err("Expected Operations"@)),
        },
        _ => Err(sp_syntax_err("Expected patch request"@)),
    }
}

/// Reads the PATCH operations out of a PATCH document.
#[verifier::rlimit(60)]
fn parse_patch_ops(v: JsonValue) -> (r: Result<Vec<PatchOperation>, Error>)
    ensures
        match &r {
            Ok(ops) => sp_parse_patch_ops(v@) == Ok::<
                Seq<crate::update::SpecPatchOperation>,
                SpecError,
            >(view_patch_ops(ops@)),
            Err(e) => sp_parse_patch_ops(v@) == Err::<
                Seq<crate::update::SpecPatchOperation>,
                SpecError,
            >(e@),
        },
{
    match v {
        JsonValue::Object(es) => {
            match obj_take(es, "Operations") {
                Some(JsonValue::Array(mut vs)) => {
                    let ghost svs = crate::json::view_json_seq(vs@);
                    proof {
                        crate::json::lemma_view_json_seq(vs@);
                        assert(view_patch_ops(Seq::<PatchOperation>::empty())
                            =~= Seq::<crate::update::SpecPatchOperation>::empty());
                    }
                    let mut ops: Vec<PatchOperation> = Vec::new();
                    let ghost mut rem: Seq<SpecJson> = svs;
                    loop
                        invariant
                            sp_parse_patch_ops(v@) == sp_patch_ops_list(svs),
                            crate::json::view_json_seq(vs@) == rem,
                            sp_patch_ops_list(svs) == match sp_patch_ops_list(rem) {
                                Ok(rest) => Ok::<
                                    Seq<crate::update::SpecPatchOperation>,
                                    SpecError,
                                >(view_patch_ops(ops@) + rest),
                                Err(e) => Err::<
                                    Seq<crate::update::SpecPatchOperation>,
                                    SpecError,
                                >(e),
                            },
                        ensures
                            rem.len() == 0,
                            sp_patch_ops_list(svs) == match sp_patch_ops_list(rem) {
                                Ok(rest) => Ok::<
                                    Seq<crate::update::SpecPatchOperation>,
                                    SpecError,
                                >(view_patch_ops(ops@) + rest),
                                Err(e) => Err::<
                                    Seq<crate::update::SpecPatchOperation>,
                                    SpecError,
                                >(e),
                            },
                        decreases vs@.len(),
                    {
                        if vs.len() == 0 {
                            break;
                        }
                        let ghost before = vs@;
                        let ghost rem_before = rem;
                        let hd = vs.remove(0);
                        proof {
                            crate::json::lemma_view_json_seq(before);
                            assert(rem_before.first() == before[0]@);
                            assert(before.drop_first() =~= vs@);
                            crate::json::lemma_view_json_seq(vs@);
                            assert forall|k: int| 0 <= k < vs@.len() implies crate::json::view_json_seq(
                                before,
                            ).drop_first()[k] == crate::json::view_json_seq(vs@)[k] by {
                                assert(crate::json::view_json_seq(before)[k + 1] == before[k + 1]@);
                                assert(before[k + 1] == vs@[k]);
                                assert(crate::json::view_json_seq(vs@)[k] == vs@[k]@);
                            }
                            assert(crate::json::view_json_seq(before).drop_first()
                                =~= crate::json::view_json_seq(vs@));
                            rem = rem_before.drop_first();
                        }
                        match hd {
                            JsonValue::Object(oes) => {
                                let ghost soes = view_json_entries(oes@);
                                proof {
                                    assert(rem_before.first() == SpecJson::Object(soes));
                                }
                                let op_val: Option<&JsonValue> = obj_get(&oes, "op");
                                let op = match op_val {
                                    Some(JsonValue::Str(t)) => {
                                        match PatchOperationType::from_str(t.as_str()) {
                                            Ok(o) => o,
                                            Err(e) => {
                                                proof {
                                                    reveal_strlit("Expected ");
                                                    reveal_strlit("Patch Operation");
                                                    reveal_strlit("Expected Patch Operation");
                                                    assert("Expected "@ + "Patch Operation"@
                                                        =~= "Expected Patch Operation"@);
                                                    assert(e@ == sp_expected_err(
                                                        "Patch Operation"@,
                                                    ));
                                                }
                                                return Err(e);
                                            },
                                        }
                                    },
                                    _ => {
                                        return Err(
                                            Error::new(
                                                400,
                                                Some(ErrorType::InvalidSyntax),
                                                String::from_str("Expected op"),
                                            ),
                                        );
                                    },
                                };
                                let path = match obj_get(&oes, "path") {
                                    None => String::new(),
                                    Some(JsonValue::Str(t)) => t.clone(),
                                    Some(_) => {
                                        return Err(
                                            Error::new(
                                                400,
                                                Some(ErrorType::InvalidSyntax),
                                                String::from_str("Expected path"),
                                            ),
                                        );
                                    },
                                };
                                let value = match obj_take(oes, "value") {
                                    Some(w) => w,
                                    None => JsonValue::Null,
                                };
                                let ghost ops_before = ops@;
                                let newop = PatchOperation { op, path, value };
                                let ghost nv = newop@;
                                ops.push(newop);
                                proof {
                                    reveal_strlit("add");
                                    reveal_strlit("replace");
                                    reveal_strlit("remove");
                                    assert(ops@.drop_last() == ops_before);
                                    assert(view_patch_ops(ops@) == view_patch_ops(
                                        ops_before,
                                    ).push(nv));
                                    assert(spec_obj_get(soes, "op"@) matches Some(w) && w matches
                                        SpecJson::Str(t) && ((crate::text::seq_ieq(t, "add"@)
                                        && nv.op == PatchOperationType::Add) || (
                                    crate::text::seq_ieq(t, "replace"@) && nv.op
                                        == PatchOperationType::Replace) || (crate::text::seq_ieq(
                                        t,
                                        "remove"@,
                                    ) && nv.op == PatchOperationType::Remove)));
                                    assert(nv.path == match spec_obj_get(soes, "path"@) {
                                        None => Seq::<char>::empty(),
                                        Some(SpecJson::Str(t)) => t,
                                        Some(_) => Seq::<char>::empty(),
                                    });
                                    assert(nv.value == match spec_obj_get(soes, "value"@) {
                                        Some(v2) => v2,
                                        None => SpecJson::Null,
                                    });
                                    assert(sp_patch_ops_list(rem_before) == match sp_patch_ops_list(
                                        rem,
                                    ) {
                                        Ok(rest) => Ok::<
                                            Seq<crate::update::SpecPatchOperation>,
                                            SpecError,
                                        >(seq![nv] + rest),
                                        Err(e) => Err::<
                                            Seq<crate::update::SpecPatchOperation>,
                                            SpecError,
                                        >(e),
                                    });
                                    match sp_patch_ops_list(rem) {
                                        Ok(rest) => {
                                            assert(view_patch_ops(ops_before) + (seq![nv] + rest)
                                                =~= view_patch_ops(ops@) + rest);
                                        },
                                        Err(_) => {},
                                    }
                                }
                            },
                            _ => {
                                return Err(
                                    Error::new(
                                        400,
                                        Some(ErrorType::InvalidSyntax),
                                        String::from_str("Expected patch operation"),
                                    ),
                                );
                            },
                        }
                    }
                    proof {
                        assert(view_patch_ops(ops@) + Seq::<
                            crate::update::SpecPatchOperation,
                        >::empty() =~= view_patch_ops(ops@));
                    }
                    Ok(ops)
                },
                Some(_) => Err(
                    Error::new(
                        400,
                        Some(ErrorType::InvalidSyntax),
                        String::from_str("Expected Operations"),
                    ),
                ),
                None => Err(
                    Error::new(
                        400,
                        Some(ErrorType::InvalidSyntax),
                        String::from_str("Expected Operations"),
                    ),
                ),
            }
        },
        _ => Err(
            Error::new(
                400,
                Some(ErrorType::InvalidSyntax),
                String::from_str("Expected patch request"),
            ),
        ),
    }
}

/// The update operation an incoming PATCH operation stands for.
pub open spec fn sp_op_of(op: PatchOperationType, value: SpecJson) -> crate::manager::SpecUpdateOp {
    match op {
        PatchOperationType::Add => crate::manager::SpecUpdateOp::Add(value),
        PatchOperationType::Replace => crate::manager::SpecUpdateOp::Replace(value),
        PatchOperationType::Remove => crate::manager::SpecUpdateOp::Remove,
    }
}

/// Translation of PATCH operations into flat update items, in document
/// order: a path is parsed and normalized; a path-less add or replace
/// of an object is split field-wise.
pub open spec fn sp_translate_patch(
    cream: Cream,
    i: int,
    ops: Seq<crate::update::SpecPatchOperation>,
) -> Result<Seq<SpecUpdateItem>, SpecError>
    decreases ops,
{
    if ops.len() == 0 {
        Ok(Seq::empty())
    } else {
        let corev = sp_core_view(cream, i);
        let extv = sp_ext_views(
            cream.schemas@,
            cream.resource_types@[i].resource_type.schema_extensions@,
        );
        let rt = cream.resource_types@[i].resource_type;
        let o = ops.first();
        if o.path.len() == 0 && (o.op == PatchOperationType::Add || o.op
            == PatchOperationType::Replace) && o.value is Object {
            let items = sp_normalize_update(
                o.value->Object_0,
                rt.schema@,
                crate::resource_type::view_extensions(rt.schema_extensions@),
                true,
            );
            match sp_translate_patch(cream, i, ops.drop_first()) {
                Ok(rest) => Ok(items + rest),
                Err(e) => Err(e),
            }
        } else if o.path.len() == 0 {
            let item = SpecUpdateItem { path: None, op: sp_op_of(o.op, o.value) };
            match sp_translate_patch(cream, i, ops.drop_first()) {
                Ok(rest) => Ok(seq![item] + rest),
                Err(e) => Err(e),
            }
        } else {
            match sp_parse_value_path(o.path) {
                None => Err(
                    SpecError {
                        status: 400,
                        scim_type: Some(ErrorType::InvalidPath),
                        detail: sp_path_err_detail(o.path),
                    },
                ),
                Some(vp) => {
                    let item = SpecUpdateItem {
                        path: Some(sp_visit_value_path(corev, extv, vp)),
                        op: sp_op_of(o.op, o.value),
                    };
                    match sp_translate_patch(cream, i, ops.drop_first()) {
                        Ok(rest) => Ok(seq![item] + rest),
                        Err(e) => Err(e),
                    }
                },
            }
        }
    }
}

/// Translates PATCH operations into flat update items.
#[verifier::rlimit(60)]
fn translate_patch(cream: &Cream, i: usize, ops: Vec<PatchOperation>) -> (r: Result<
    Vec<UpdateResourceItem>,
    Error,
>)
    requires
        sp_cream_wf(*cream),
        i < cream.resource_types@.len(),
    ensures
        match &r {
            Ok(items) => sp_translate_patch(*cream, i as int, view_patch_ops(ops@)) == Ok::<
                Seq<SpecUpdateItem>,
                SpecError,
            >(view_update_items(items@)),
            Err(e) => sp_translate_patch(*cream, i as int, view_patch_ops(ops@)) == Err::<
                Seq<SpecUpdateItem>,
                SpecError,
            >(e@),
        },
{
    let (core, exts) = core_and_exts(cream, i);
    let rt = &cream.resource_types[i].resource_type;
    proof {
        assert(cream.resource_types@[i as int].resource_type == *rt);
        assert(view_update_items(Seq::<UpdateResourceItem>::empty())
            =~= Seq::<SpecUpdateItem>::empty());
    }
    let ghost sops = view_patch_ops(ops@);
    let mut work = ops;
    let mut items: Vec<UpdateResourceItem> = Vec::new();
    let ghost mut rem: Seq<crate::update::SpecPatchOperation> = sops;
    loop
        invariant
            sp_cream_wf(*cream),
            i < cream.resource_types@.len(),
            sops == view_patch_ops(ops@),
            view_patch_ops(work@) == rem,
            core@ == sp_core_view(*cream, i as int),
            view_schemas(exts@) == sp_ext_views(
                cream.schemas@,
                cream.resource_types@[i as int].resource_type.schema_extensions@,
            ),
            *rt == cream.resource_types@[i as int].resource_type,
            sp_translate_patch(*cream, i as int, sops) == match sp_translate_patch(
                *cream,
                i as int,
                rem,
            ) {
                Ok(rest) => Ok::<Seq<SpecUpdateItem>, SpecError>(
                    view_update_items(items@) + rest,
                ),
                Err(e) => Err::<Seq<SpecUpdateItem>, SpecError>(e),
            },
        ensures
            rem.len() == 0,
            sp_translate_patch(*cream, i as int, sops) == match sp_translate_patch(
                *cream,
                i as int,
                rem,
            ) {
                Ok(rest) => Ok::<Seq<SpecUpdateItem>, SpecError>(
                    view_update_items(items@) + rest,
                ),
                Err(e) => Err::<Seq<SpecUpdateItem>, SpecError>(e),
            },
        decreases work@.len(),
    {
        if work.len() == 0 {
            break;
        }
        let ghost before = work@;
        let ghost rem_before = rem;
        let o = work.remove(0);
        proof {
            lemma_view_patch_ops(before);
            assert(rem_before.first() == before[0]@);
            assert(before.drop_first() =~= work@);
            lemma_view_patch_ops(work@);
            assert forall|k: int| 0 <= k < work@.len() implies view_patch_ops(
                before,
            ).drop_first()[k] == view_patch_ops(work@)[k] by {
                assert(view_patch_ops(before)[k + 1] == before[k + 1]@);
                assert(before[k + 1] == work@[k]);
                assert(view_patch_ops(work@)[k] == work@[k]@);
            }
            assert(view_patch_ops(before).drop_first() =~= view_patch_ops(work@));
            rem = rem_before.drop_first();
        }
        let path_empty = o.path.as_str().is_empty();
        let is_add_or_replace = match o.op {
            PatchOperationType::Add => true,
            PatchOperationType::Replace => true,
            PatchOperationType::Remove => false,
        };
        let ghost items_before = items@;
        if path_empty && is_add_or_replace {
            match o.value {
                JsonValue::Object(entries) => {
                    let mut more = normalize_update(
                        entries,
                        rt.schema.as_str(),
                        &rt.schema_extensions,
                        true,
                    );
                    let ghost more0 = more@;
                    items.append(&mut more);
                    proof {
                        lemma_update_items_concat(items_before, more0);
                        match sp_translate_patch(*cream, i as int, rem) {
                            Ok(rest) => {
                                assert(view_update_items(items_before) + (view_update_items(more0)
                                    + rest) =~= view_update_items(items@) + rest);
                            },
                            Err(_) => {},
                        }
                    }
                    continue ;
                },
                other => {
                    let newit = UpdateResourceItem {
                        path: None,
                        op: match o.op {
                            PatchOperationType::Add => UpdateOp::Add(other),
                            PatchOperationType::Replace => UpdateOp::Replace(other),
                            PatchOperationType::Remove => UpdateOp::Remove,
                        },
                    };
                    let ghost nv = newit@;
                    items.push(newit);
                    proof {
                        assert(items@.drop_last() == items_before);
                        assert(view_update_items(items@) == view_update_items(items_before).push(
                            nv,
                        ));
                        match sp_translate_patch(*cream, i as int, rem) {
                            Ok(rest) => {
                                assert(view_update_items(items_before) + (seq![nv] + rest)
                                    =~= view_update_items(items@) + rest);
                            },
                            Err(_) => {},
                        }
                    }
                },
            }
        } else if path_empty {
            let newit = UpdateResourceItem {
                path: None,
                op: match o.op {
                    PatchOperationType::Add => UpdateOp::Add(o.value),
                    PatchOperationType::Replace => UpdateOp::Replace(o.value),
                    PatchOperationType::Remove => UpdateOp::Remove,
                },
            };
            let ghost nv = newit@;
            items.push(newit);
            proof {
                assert(items@.drop_last() == items_before);
                assert(view_update_items(items@) == view_update_items(items_before).push(nv));
                match sp_translate_patch(*cream, i as int, rem) {
                    Ok(rest) => {
                        assert(view_update_items(items_before) + (seq![nv] + rest)
                            =~= view_update_items(items@) + rest);
                    },
                    Err(_) => {},
                }
            }
        } else {
            match parse_value_path(o.path.as_str()) {
                Ok(vp) => {
                    let vvp = visit_value_path(core, &exts, vp);
                    let newit = UpdateResourceItem {
                        path: Some(vvp),
                        op: match o.op {
                            PatchOperationType::Add => UpdateOp::Add(o.value),
                            PatchOperationType::Replace => UpdateOp::Replace(o.value),
                            PatchOperationType::Remove => UpdateOp::Remove,
                        },
                    };
                    let ghost nv = newit@;
                    items.push(newit);
                    proof {
                        assert(items@.drop_last() == items_before);
                        assert(view_update_items(items@) == view_update_items(items_before).push(
                            nv,
                        ));
                        match sp_translate_patch(*cream, i as int, rem) {
                            Ok(rest) => {
                                assert(view_update_items(items_before) + (seq![nv] + rest)
                                    =~= view_update_items(items@) + rest);
                            },
                            Err(_) => {},
                        }
                    }
                },
                Err(e) => {
                    proof {
                        assert(sp_translate_patch(*cream, i as int, rem_before) == Err::<
                            Seq<SpecUpdateItem>,
                            SpecError,
                        >(e@));
                    }
                    return Err(e);
                },
            }
        }
    }
    proof {
        assert(view_update_items(items@) + Seq::<SpecUpdateItem>::empty() =~= view_update_items(
            items@,
        ));
    }
    Ok(items)
}

/// The model of a sequence of PATCH operations has the same length and
/// holds the models of its elements, in order.
pub proof fn lemma_view_patch_ops(vs: Seq<PatchOperation>)
    ensures
        view_patch_ops(vs).len() == vs.len(),
        forall|i: int| 0 <= i < vs.len() ==> view_patch_ops(vs)[i] == #[trigger] vs[i]@,
    decreases vs,
{
    if vs.len() > 0 {
        lemma_view_patch_ops(vs.drop_last());
        assert(view_patch_ops(vs) == view_patch_ops(vs.drop_last()).push(vs.last()@));
        assert forall|i: int| 0 <= i < vs.len() implies view_patch_ops(vs)[i]
            == #[trigger] vs[i]@ by {
            if i < vs.len() - 1 {
                assert(vs.drop_last()[i] == vs[i]);
            } else {
                assert(vs.last() == vs[i]);
            }
        }
    }
}

/// The model of a concatenation of update-item vectors is the
/// concatenation of their models.
proof fn lemma_update_items_concat(a: Seq<UpdateResourceItem>, b: Seq<UpdateResourceItem>)
    ensures
        view_update_items(a + b) == view_update_items(a) + view_update_items(b),
    decreases b,
{
    if b.len() == 0 {
        assert(a + b =~= a);
        assert(view_update_items(a) + view_update_items(b) =~= view_update_items(a));
    } else {
        lemma_update_items_concat(a, b.drop_last());
        assert((a + b).drop_last() =~= a + b.drop_last());
        assert((a + b).last() == b.last());
        assert(view_update_items(a + b) == view_update_items(a + b.drop_last()).push(b.last()@));
        assert(view_update_items(b) == view_update_items(b.drop_last()).push(b.last()@));
        assert(view_update_items(a) + view_update_items(b.drop_last()).push(b.last()@) =~= (
        view_update_items(a) + view_update_items(b.drop_last())).push(b.last()@));
    }
}

} // verus!

verus! {

/// A finished step answering with the given status and body.
pub open spec fn sp_done(status: int, body: SpecResponseBody) -> SpecStep {
    SpecStep::Done(SpecResponse { status, body })
}

/// The raw selection lists of a query string.
pub open spec fn sp_selection_query(q: Seq<(Seq<char>, Seq<char>)>) -> (
    Seq<Seq<char>>,
    Seq<Seq<char>>,
) {
    (
        match sp_q_get(q, "attributes"@) {
            Some(t) => sp_split_commas(t, 0),
            None => Seq::empty(),
        },
        match sp_q_get(q, "excludedAttributes"@) {
            Some(t) => sp_split_commas(t, 0),
            None => Seq::empty(),
        },
    )
}

/// The located service-provider configuration.
pub open spec fn sp_located_config(cream: Cream) -> crate::config::SpecConfig {
    crate::config::SpecConfig {
        meta: crate::meta::SpecMeta {
            location: Some(crate::reference::SpecReference::Relative("/ServiceProviderConfig"@)),
            ..cream.config@.meta
        },
        ..cream.config@
    }
}

/// The schema at index `k`, located.
pub open spec fn sp_located_schema(cream: Cream, k: int) -> crate::schema::SpecSchema {
    crate::schema::SpecSchema {
        meta: crate::meta::SpecMeta {
            location: Some(
                crate::reference::SpecReference::Relative("/Schemas/"@ + cream.schemas@[k].id@),
            ),
            ..cream.schemas@[k]@.meta
        },
        ..cream.schemas@[k]@
    }
}

/// The resource type at index `k`, located.
pub open spec fn sp_located_rt(cream: Cream, k: int) -> crate::resource_type::SpecResourceType {
    crate::resource_type::SpecResourceType {
        meta: crate::meta::SpecMeta {
            location: Some(
                crate::reference::SpecReference::Relative(
                    "/ResourceTypes/"@ + cream.resource_types@[k].resource_type.name@,
                ),
            ),
            ..cream.resource_types@[k].resource_type@.meta
        },
        ..cream.resource_types@[k].resource_type@
    }
}

/// What [`begin`] yields: the route decides; parse and normalization
/// failures answer at once, manager work becomes a call with its
/// continuation.
pub open spec fn sp_begin(cream: Cream, req: Request) -> SpecStep {
    let q = view_pairs(req.query@);
    match sp_resolve(cream.resource_types@, req.method, req.path@) {
        SpecRoute::ServiceProviderConfig => sp_done(
            200,
            SpecResponseBody::Config(sp_located_config(cream)),
        ),
        SpecRoute::ListSchemas => sp_done(
            200,
            SpecResponseBody::SchemaListing {
                total_results: cream.schemas@.len(),
                start_index: 1,
                items_per_page: cream.schemas@.len() + 1,
                resources: sp_located_schemas(cream.schemas@),
            },
        ),
        SpecRoute::GetSchema(id) => match sp_lookup_schema(cream.schemas@, id) {
            Some(k) => sp_done(200, SpecResponseBody::SchemaDoc(sp_located_schema(cream, k))),
            None => sp_err_step(sp_not_found_err()),
        },
        SpecRoute::ListResourceTypes => sp_done(
            200,
            SpecResponseBody::ResourceTypeListing {
                total_results: cream.resource_types@.len(),
                start_index: 1,
                items_per_page: cream.resource_types@.len() + 1,
                resources: sp_located_rts(cream.resource_types@),
            },
        ),
        SpecRoute::GetResourceType(name) => match sp_lookup_rts(cream.resource_types@, name) {
            Some(k) => sp_done(
                200,
                SpecResponseBody::ResourceTypeDoc(sp_located_rt(cream, k)),
            ),
            None => sp_err_step(sp_not_found_err()),
        },
        SpecRoute::SearchRoot => match req.body {
            None => sp_err_step(sp_syntax_err("Expected search request"@)),
            Some(b) => match sp_list_args_body(b@) {
                Err(e) => sp_err_step(e),
                Ok(args) => match args.filter {
                    None => sp_err_step(sp_invalid_filter_err()),
                    Some(ft) => match sp_parse_filter(ft) {
                        None => sp_err_step(
                            SpecError {
                                status: 400,
                                scim_type: Some(ErrorType::InvalidFilter),
                                detail: sp_filter_err_detail(ft),
                            },
                        ),
                        Some(f) => match sp_take_rt(f) {
                            Err(_) => sp_err_step(sp_invalid_filter_err()),
                            Ok((residual, name)) => match sp_lookup_rts(
                                cream.resource_types@,
                                name,
                            ) {
                                None => sp_err_step(sp_not_found_err()),
                                Some(k) => match sp_prepare_rest(cream, k, args, residual) {
                                    Err(e) => sp_err_step(e),
                                    Ok((la, ws)) => SpecStep::Call(
                                        SpecManagerCall {
                                            resource_type: cream.resource_types@[
                                                k
                                            ].resource_type.name@,
                                            op: SpecManagerOp::List(la),
                                        },
                                        SpecCont::FinishList { wire_start: ws },
                                    ),
                                },
                            },
                        },
                    },
                },
            },
        },
        SpecRoute::ListResources(k) => match sp_list_args_query(q) {
            Err(e) => sp_err_step(e),
            Ok(args) => match sp_prepare_list(cream, k, args) {
                Err(e) => sp_err_step(e),
                Ok((la, ws)) => SpecStep::Call(
                    SpecManagerCall {
                        resource_type: cream.resource_types@[k].resource_type.name@,
                        op: SpecManagerOp::List(la),
                    },
                    SpecCont::FinishList { wire_start: ws },
                ),
            },
        },
        SpecRoute::SearchResources(k) => match req.body {
            None => sp_err_step(sp_syntax_err("Expected search request"@)),
            Some(b) => match sp_list_args_body(b@) {
                Err(e) => sp_err_step(e),
                Ok(args) => match sp_prepare_list(cream, k, args) {
                    Err(e) => sp_err_step(e),
                    Ok((la, ws)) => SpecStep::Call(
                        SpecManagerCall {
                            resource_type: cream.resource_types@[k].resource_type.name@,
                            op: SpecManagerOp::List(la),
                        },
                        SpecCont::FinishList { wire_start: ws },
                    ),
                },
            },
        },
        SpecRoute::CreateResource(k) => match req.body {
            Some(b) => if b@ is Object {
                SpecStep::Call(
                    SpecManagerCall {
                        resource_type: cream.resource_types@[k].resource_type.name@,
                        op: SpecManagerOp::Create(b@),
                    },
                    SpecCont::AfterCreate {
                        resource_type: cream.resource_types@[k].resource_type.name@,
                        attributes: sp_selection_query(q).0,
                        excluded: sp_selection_query(q).1,
                    },
                )
            } else {
                sp_err_step(sp_syntax_err("Expected resource"@))
            },
            None => sp_err_step(sp_syntax_err("Expected resource"@)),
        },
        SpecRoute::GetResource(k, id) => match sp_prepare_optional(
            cream,
            k,
            sp_selection_query(q).0,
            sp_selection_query(q).1,
        ) {
            Err(e) => sp_err_step(e),
            Ok(opt) => SpecStep::Call(
                SpecManagerCall {
                    resource_type: cream.resource_types@[k].resource_type.name@,
                    op: SpecManagerOp::Get(SpecGetArgs { id, optional_attributes: opt }),
                },
                SpecCont::FinishGet,
            ),
        },
        SpecRoute::PutResource(k, id) => match req.body {
            Some(b) => if b@ is Object {
                SpecStep::Call(
                    SpecManagerCall {
                        resource_type: cream.resource_types@[k].resource_type.name@,
                        op: SpecManagerOp::Replace(id, b@),
                    },
                    SpecCont::AfterReplace {
                        resource_type: cream.resource_types@[k].resource_type.name@,
                        id,
                        attributes: sp_selection_query(q).0,
                        excluded: sp_selection_query(q).1,
                    },
                )
            } else {
                sp_err_step(sp_syntax_err("Expected resource"@))
            },
            None => sp_err_step(sp_syntax_err("Expected resource"@)),
        },
        SpecRoute::PatchResource(k, id) => match req.body {
            None => sp_err_step(sp_syntax_err("Expected patch request"@)),
            Some(b) => match sp_parse_patch_ops(b@) {
                Err(e) => sp_err_step(e),
                Ok(ops) => match sp_translate_patch(cream, k, ops) {
                    Err(e) => sp_err_step(e),
                    Ok(items) => SpecStep::Call(
                        SpecManagerCall {
                            resource_type: cream.resource_types@[k].resource_type.name@,
                            op: SpecManagerOp::Update(SpecUpdateArgs { id, items }),
                        },
                        SpecCont::AfterUpdate {
                            resource_type: cream.resource_types@[k].resource_type.name@,
                            id,
                            attributes: sp_selection_query(q).0,
                            excluded: sp_selection_query(q).1,
                        },
                    ),
                },
            },
        },
        SpecRoute::DeleteResource(k, id) => SpecStep::Call(
            SpecManagerCall {
                resource_type: cream.resource_types@[k].resource_type.name@,
                op: SpecManagerOp::Delete(id),
            },
            SpecCont::FinishDelete,
        ),
        SpecRoute::NotFoundRoute => sp_err_step(sp_not_found_err()),
        SpecRoute::MethodNotAllowedRoute => sp_err_step(
            SpecError { status: 405, scim_type: None, detail: "Method Not Allowed"@ },
        ),
    }
}

/// A resolved resource-type index lies within the table.
pub proof fn lemma_resolve_rt_index(
    rts: Seq<ResourceTypeState>,
    method: Method,
    path: Seq<char>,
    i: int,
)
    requires
        0 <= i,
    ensures
        match sp_resolve_rt(rts, method, path, i) {
            SpecRoute::ListResources(k) => i <= k < rts.len(),
            SpecRoute::CreateResource(k) => i <= k < rts.len(),
            SpecRoute::SearchResources(k) => i <= k < rts.len(),
            SpecRoute::GetResource(k, _) => i <= k < rts.len(),
            SpecRoute::PutResource(k, _) => i <= k < rts.len(),
            SpecRoute::PatchResource(k, _) => i <= k < rts.len(),
            SpecRoute::DeleteResource(k, _) => i <= k < rts.len(),
            _ => true,
        },
    decreases rts.len() - i,
{
    if 0 <= i < rts.len() {
        match sp_tail_after(path, rts[i].resource_type.endpoint@) {
            Some(_) => {},
            None => {
                lemma_resolve_rt_index(rts, method, path, i + 1);
            },
        }
    }
}

/// A resolved resource-type index lies within the table.
pub proof fn lemma_resolve_index(rts: Seq<ResourceTypeState>, method: Method, path: Seq<char>)
    ensures
        match sp_resolve(rts, method, path) {
            SpecRoute::ListResources(k) => 0 <= k < rts.len(),
            SpecRoute::CreateResource(k) => 0 <= k < rts.len(),
            SpecRoute::SearchResources(k) => 0 <= k < rts.len(),
            SpecRoute::GetResource(k, _) => 0 <= k < rts.len(),
            SpecRoute::PutResource(k, _) => 0 <= k < rts.len(),
            SpecRoute::PatchResource(k, _) => 0 <= k < rts.len(),
            SpecRoute::DeleteResource(k, _) => 0 <= k < rts.len(),
            _ => true,
        },
{
    lemma_resolve_rt_index(rts, method, path, 0);
}

/// A step answering with the given error.
fn err_step(e: Error) -> (r: Step)
    ensures
        r@ == sp_err_step(e@),
{
    Step::Done(Response { status: e.status, body: ResponseBody::ErrorDoc(e) })
}

/// Reads the raw selection lists off the query pairs.
fn selection_query(q: &Vec<(String, String)>) -> (r: (Vec<String>, Vec<String>))
    ensures
        view_string_seq(r.0@) == sp_selection_query(view_pairs(q@)).0,
        view_string_seq(r.1@) == sp_selection_query(view_pairs(q@)).1,
{
    let att = match q_get(q, "attributes") {
        Some(t) => split_commas(t.as_str()),
        None => Vec::new(),
    };
    let exc = match q_get(q, "excludedAttributes") {
        Some(t) => split_commas(t.as_str()),
        None => Vec::new(),
    };
    proof {
        assert(view_string_seq(Seq::<String>::empty()) =~= Seq::<Seq<char>>::empty());
    }
    (att, exc)
}

/// Resolves a request and carries it as far as the first manager call:
/// discovery routes answer at once, parse or normalization failures
/// answer with their error, and everything else becomes a manager call
/// with the continuation that finishes the response.
#[verifier::rlimit(100)]
pub fn begin(cream: &Cream, req: Request) -> (r: Step)
    requires
        sp_cream_wf(*cream),
        cream.schemas@.len() < usize::MAX,
        cream.resource_types@.len() < usize::MAX,
    ensures
        r@ == sp_begin(*cream, req),
{
    let Request { method, path, query, body } = req;
    let route = resolve(&cream.resource_types, method, path.as_str());
    proof {
        lemma_resolve_index(cream.resource_types@, method, path@);
    }
    match route {
        Route::ServiceProviderConfig => Step::Done(
            Response {
                status: 200,
                body: ResponseBody::Config(get_service_provider_config(cream)),
            },
        ),
        Route::ListSchemas => Step::Done(
            Response { status: 200, body: ResponseBody::SchemaListing(list_schemas(cream)) },
        ),
        Route::GetSchema(id) => {
            match get_schema(cream, id.as_str()) {
                Some(s) => Step::Done(
                    Response { status: 200, body: ResponseBody::SchemaDoc(s) },
                ),
                None => err_step(Error::not_found()),
            }
        },
        Route::ListResourceTypes => Step::Done(
            Response {
                status: 200,
                body: ResponseBody::ResourceTypeListing(list_resource_types(cream)),
            },
        ),
        Route::GetResourceType(name) => {
            match get_resource_type(cream, name.as_str()) {
                Some(rt) => Step::Done(
                    Response { status: 200, body: ResponseBody::ResourceTypeDoc(rt) },
                ),
                None => err_step(Error::not_found()),
            }
        },
        Route::SearchRoot => {
            match body {
                None => err_step(
                    Error::new(
                        400,
                        Some(ErrorType::InvalidSyntax),
                        String::from_str("Expected search request"),
                    ),
                ),
                Some(b) => {
                    match parse_list_args_body(&b) {
                        Err(e) => err_step(e),
                        Ok(args) => {
                            let ftext = match &args.filter {
                                None => {
                                    return err_step(Error::invalid_filter());
                                },
                                Some(t) => t.clone(),
                            };
                            match parse_filter(ftext.as_str()) {
                                Err(e) => err_step(e),
                                Ok(f) => {
                                    match f.take_resource_type_filter() {
                                        Err(_) => err_step(Error::invalid_filter()),
                                        Ok((residual, name)) => {
                                            match crate::state::lookup_rts(
                                                &cream.resource_types,
                                                name.as_str(),
                                            ) {
                                                None => err_step(Error::not_found()),
                                                Some(k) => {
                                                    match prepare_rest(cream, k, args, residual) {
                                                        Err(e) => err_step(e),
                                                        Ok((la, ws)) => Step::Call(
                                                            ManagerCall {
                                                                resource_type: cream.resource_types[
                                                                    k
                                                                ].resource_type.name.clone(),
                                                                op: ManagerOp::List(la),
                                                            },
                                                            Cont::FinishList { wire_start: ws },
                                                        ),
                                                    }
                                                },
                                            }
                                        },
                                    }
                                },
                            }
                        },
                    }
                },
            }
        },
        Route::ListResources(k) => {
            match parse_list_args_query(&query) {
                Err(e) => err_step(e),
                Ok(args) => {
                    match prepare_list(cream, k, args) {
                        Err(e) => err_step(e),
                        Ok((la, ws)) => Step::Call(
                            ManagerCall {
                                resource_type: cream.resource_types[k].resource_type.name.clone(),
                                op: ManagerOp::List(la),
                            },
                            Cont::FinishList { wire_start: ws },
                        ),
                    }
                },
            }
        },
        Route::SearchResources(k) => {
            match body {
                None => err_step(
                    Error::new(
                        400,
                        Some(ErrorType::InvalidSyntax),
                        String::from_str("Expected search request"),
                    ),
                ),
                Some(b) => {
                    match parse_list_args_body(&b) {
                        Err(e) => err_step(e),
                        Ok(args) => {
                            match prepare_list(cream, k, args) {
                                Err(e) => err_step(e),
                                Ok((la, ws)) => Step::Call(
                                    ManagerCall {
                                        resource_type: cream.resource_types[
                                            k
                                        ].resource_type.name.clone(),
                                        op: ManagerOp::List(la),
                                    },
                                    Cont::FinishList { wire_start: ws },
                                ),
                            }
                        },
                    }
                },
            }
        },
        Route::CreateResource(k) => {
            match body {
                Some(b) => {
                    let is_obj = match &b {
                        JsonValue::Object(_) => true,
                        _ => false,
                    };
                    if is_obj {
                        let (att, exc) = selection_query(&query);
                        Step::Call(
                            ManagerCall {
                                resource_type: cream.resource_types[k].resource_type.name.clone(),
                                op: ManagerOp::Create(b),
                            },
                            Cont::AfterCreate {
                                resource_type: cream.resource_types[k].resource_type.name.clone(),
                                attributes: att,
                                excluded: exc,
                            },
                        )
                    } else {
                        err_step(
                            Error::new(
                                400,
                                Some(ErrorType::InvalidSyntax),
                                String::from_str("Expected resource"),
                            ),
                        )
                    }
                },
                None => err_step(
                    Error::new(
                        400,
                        Some(ErrorType::InvalidSyntax),
                        String::from_str("Expected resource"),
                    ),
                ),
            }
        },
        Route::GetResource(k, id) => {
            let (att, exc) = selection_query(&query);
            match prepare_optional(cream, k, &att, &exc) {
                Err(e) => err_step(e),
                Ok(opt) => Step::Call(
                    ManagerCall {
                        resource_type: cream.resource_types[k].resource_type.name.clone(),
                        op: ManagerOp::Get(GetResourceArgs { id, optional_attributes: opt }),
                    },
                    Cont::FinishGet,
                ),
            }
        },
        Route::PutResource(k, id) => {
            match body {
                Some(b) => {
                    let is_obj = match &b {
                        JsonValue::Object(_) => true,
                        _ => false,
                    };
                    if is_obj {
                        let (att, exc) = selection_query(&query);
                        Step::Call(
                            ManagerCall {
                                resource_type: cream.resource_types[k].resource_type.name.clone(),
                                op: ManagerOp::Replace(id.clone(), b),
                            },
                            Cont::AfterReplace {
                                resource_type: cream.resource_types[k].resource_type.name.clone(),
                                id,
                                attributes: att,
                                excluded: exc,
                            },
                        )
                    } else {
                        err_step(
                            Error::new(
                                400,
                                Some(ErrorType::InvalidSyntax),
                                String::from_str("Expected resource"),
                            ),
                        )
                    }
                },
                None => err_step(
                    Error::new(
                        400,
                        Some(ErrorType::InvalidSyntax),
                        String::from_str("Expected resource"),
                    ),
                ),
            }
        },
        Route::PatchResource(k, id) => {
            match body {
                None => err_step(
                    Error::new(
                        400,
                        Some(ErrorType::InvalidSyntax),
                        String::from_str("Expected patch request"),
                    ),
                ),
                Some(b) => {
                    match parse_patch_ops(b) {
                        Err(e) => err_step(e),
                        Ok(ops) => {
                            match translate_patch(cream, k, ops) {
                                Err(e) => err_step(e),
                                Ok(items) => {
                                    let (att, exc) = selection_query(&query);
                                    Step::Call(
                                        ManagerCall {
                                            resource_type: cream.resource_types[
                                                k
                                            ].resource_type.name.clone(),
                                            op: ManagerOp::Update(
                                                UpdateResourceArgs { id: id.clone(), items },
                                            ),
                                        },
                                        Cont::AfterUpdate {
                                            resource_type: cream.resource_types[
                                                k
                                            ].resource_type.name.clone(),
                                            id,
                                            attributes: att,
                                            excluded: exc,
                                        },
                                    )
                                },
                            }
                        },
                    }
                },
            }
        },
        Route::DeleteResource(k, id) => Step::Call(
            ManagerCall {
                resource_type: cream.resource_types[k].resource_type.name.clone(),
                op: ManagerOp::Delete(id),
            },
            Cont::FinishDelete,
        ),
        Route::NotFoundRoute => err_step(Error::not_found()),
        Route::MethodNotAllowedRoute => err_step(
            Error::new(405, None, String::from_str("Method Not Allowed")),
        ),
    }
}

/// What [`resume`] yields for a continuation and a manager result: an
/// error is rendered verbatim; a finished listing wraps the page in the
/// envelope, carrying the manager's total count; a create, update or
/// replace goes on to fetch the affected resource.
pub open spec fn sp_resume(
    cream: Cream,
    cont: Cont,
    outcome: Result<ManagerOutcome, Error>,
) -> SpecStep {
    match outcome {
        Err(e) => sp_err_step(e@),
        Ok(o) => match cont {
            Cont::FinishList { wire_start } => match o {
                ManagerOutcome::Listed(res) => sp_done(
                    200,
                    SpecResponseBody::Listing {
                        total_results: res.total_count as nat,
                        start_index: wire_start as nat,
                        items_per_page: res.items_per_page as nat,
                        resources: crate::json::view_json_seq(res.resources@),
                    },
                ),
                _ => sp_err_step(sp_mismatch_err()),
            },
            Cont::FinishGet => match o {
                ManagerOutcome::Resource(v) => sp_done(200, SpecResponseBody::Resource(v@)),
                _ => sp_err_step(sp_mismatch_err()),
            },
            Cont::FinishCreated => match o {
                ManagerOutcome::Resource(v) => sp_done(201, SpecResponseBody::Resource(v@)),
                _ => sp_err_step(sp_mismatch_err()),
            },
            Cont::AfterCreate { resource_type, attributes, excluded } => match o {
                ManagerOutcome::Created(id) => sp_follow_up(
                    cream,
                    resource_type@,
                    id@,
                    view_string_seq(attributes@),
                    view_string_seq(excluded@),
                    true,
                ),
                _ => sp_err_step(sp_mismatch_err()),
            },
            Cont::AfterUpdate { resource_type, id, attributes, excluded } => match o {
                ManagerOutcome::Done => sp_follow_up(
                    cream,
                    resource_type@,
                    id@,
                    view_string_seq(attributes@),
                    view_string_seq(excluded@),
                    false,
                ),
                _ => sp_err_step(sp_mismatch_err()),
            },
            Cont::AfterReplace { resource_type, id, attributes, excluded } => match o {
                ManagerOutcome::Done => sp_follow_up(
                    cream,
                    resource_type@,
                    id@,
                    view_string_seq(attributes@),
                    view_string_seq(excluded@),
                    false,
                ),
                _ => sp_err_step(sp_mismatch_err()),
            },
            Cont::FinishDelete => match o {
                ManagerOutcome::Done => sp_done(204, SpecResponseBody::Empty),
                _ => sp_err_step(sp_mismatch_err()),
            },
        },
    }
}

/// The error answering a manager result of the wrong kind.
pub open spec fn sp_mismatch_err() -> SpecError {
    SpecError { status: 500, scim_type: None, detail: "Manager result mismatch"@ }
}

/// The follow-up retrieval after a create, update or replace: the
/// selection is resolved now, as the affected resource is fetched.
pub open spec fn sp_follow_up(
    cream: Cream,
    name: Seq<char>,
    id: Seq<char>,
    att: Seq<Seq<char>>,
    exc: Seq<Seq<char>>,
    created: bool,
) -> SpecStep {
    match sp_lookup_rts(cream.resource_types@, name) {
        None => sp_err_step(sp_not_found_err()),
        Some(k) => match sp_prepare_optional(cream, k, att, exc) {
            Err(e) => sp_err_step(e),
            Ok(opt) => SpecStep::Call(
                SpecManagerCall {
                    resource_type: cream.resource_types@[k].resource_type.name@,
                    op: SpecManagerOp::Get(SpecGetArgs { id, optional_attributes: opt }),
                },
                if created {
                    SpecCont::FinishCreated
                } else {
                    SpecCont::FinishGet
                },
            ),
        },
    }
}

/// Consumes a manager result under its continuation: an error is
/// rendered verbatim, a finished flow is wrapped in its envelope, and a
/// create, update or replace goes on to fetch the affected resource.
pub fn resume(cream: &Cream, cont: Cont, outcome: Result<ManagerOutcome, Error>) -> (r: Step)
    requires
        sp_cream_wf(*cream),
        outcome matches Ok(o) ==> sp_outcome_matches(cont, o),
    ensures
        r@ == sp_resume(*cream, cont, outcome),
{
    match outcome {
        Err(e) => err_step(e),
        Ok(o) => {
            match cont {
                Cont::FinishList { wire_start } => {
                    match o {
                        ManagerOutcome::Listed(res) => Step::Done(
                            Response {
                                status: 200,
                                body: ResponseBody::Listing(
                                    ListResponse {
                                        total_results: res.total_count,
                                        start_index: wire_start,
                                        items_per_page: res.items_per_page,
                                        resources: res.resources,
                                    },
                                ),
                            },
                        ),
                        _ => err_step(
                            Error::new(500, None, String::from_str("Manager result mismatch")),
                        ),
                    }
                },
                Cont::FinishGet => {
                    match o {
                        ManagerOutcome::Resource(v) => Step::Done(
                            Response { status: 200, body: ResponseBody::Resource(v) },
                        ),
                        _ => err_step(
                            Error::new(500, None, String::from_str("Manager result mismatch")),
                        ),
                    }
                },
                Cont::FinishCreated => {
                    match o {
                        ManagerOutcome::Resource(v) => Step::Done(
                            Response { status: 201, body: ResponseBody::Resource(v) },
                        ),
                        _ => err_step(
                            Error::new(500, None, String::from_str("Manager result mismatch")),
                        ),
                    }
                },
                Cont::AfterCreate { resource_type, attributes, excluded } => {
                    match o {
                        ManagerOutcome::Created(id) => follow_up(
                            cream,
                            resource_type,
                            id,
                            &attributes,
                            &excluded,
                            true,
                        ),
                        _ => err_step(
                            Error::new(500, None, String::from_str("Manager result mismatch")),
                        ),
                    }
                },
                Cont::AfterUpdate { resource_type, id, attributes, excluded } => {
                    match o {
                        ManagerOutcome::Done => follow_up(
                            cream,
                            resource_type,
                            id,
                            &attributes,
                            &excluded,
                            false,
                        ),
                        _ => err_step(
                            Error::new(500, None, String::from_str("Manager result mismatch")),
                        ),
                    }
                },
                Cont::AfterReplace { resource_type, id, attributes, excluded } => {
                    match o {
                        ManagerOutcome::Done => follow_up(
                            cream,
                            resource_type,
                            id,
                            &attributes,
                            &excluded,
                            false,
                        ),
                        _ => err_step(
                            Error::new(500, None, String::from_str("Manager result mismatch")),
                        ),
                    }
                },
                Cont::FinishDelete => {
                    match o {
                        ManagerOutcome::Done => Step::Done(
                            Response { status: 204, body: ResponseBody::Empty },
                        ),
                        _ => err_step(
                            Error::new(500, None, String::from_str("Manager result mismatch")),
                        ),
                    }
                },
            }
        },
    }
}

/// Places the follow-up retrieval after a create, update or replace.
fn follow_up(
    cream: &Cream,
    name: String,
    id: String,
    att: &Vec<String>,
    exc: &Vec<String>,
    created: bool,
) -> (r: Step)
    requires
        sp_cream_wf(*cream),
    ensures
        r@ == sp_follow_up(
            *cream,
            name@,
            id@,
            view_string_seq(att@),
            view_string_seq(exc@),
            created,
        ),
{
    match crate::state::lookup_rts(&cream.resource_types, name.as_str()) {
        None => err_step(Error::not_found()),
        Some(k) => {
            match prepare_optional(cream, k, att, exc) {
                Err(e) => err_step(e),
                Ok(opt) => Step::Call(
                    ManagerCall {
                        resource_type: cream.resource_types[k].resource_type.name.clone(),
                        op: ManagerOp::Get(GetResourceArgs { id, optional_attributes: opt }),
                    },
                    if created {
                        Cont::FinishCreated
                    } else {
                        Cont::FinishGet
                    },
                ),
            }
        },
    }
}

} // verus!
