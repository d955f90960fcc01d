//! The framework's immutable state: base URL, service-provider
//! configuration, schema registry and resource-type table; and the
//! builder that assembles it.

use vstd::prelude::*;

use crate::config::ServiceProviderConfig;
use crate::error::Error;
use crate::resource_type::ResourceType;
use crate::schema::Schema;
use crate::text::str_eq;

verus! {

/// One registered resource type and the page size its manager asked
/// for.
#[derive(Debug, PartialEq, Eq)]
pub struct ResourceTypeState {
    /// The resource type document.
    pub resource_type: ResourceType,
    /// The manager's default page size.
    pub page_size: usize,
}

/// The framework state, immutable once built.
#[derive(Debug, PartialEq, Eq)]
pub struct Cream {
    /// The service's base URL, prepended to relative references.
    pub base_url: String,
    /// The service-provider configuration document.
    pub config: ServiceProviderConfig,
    /// The registered schemas.
    pub schemas: Vec<Schema>,
    /// The registered resource types, with their managers' page sizes.
    pub resource_types: Vec<ResourceTypeState>,
}

/// Index of the first schema with exactly this URN.
pub open spec fn sp_lookup_schema(schemas: Seq<Schema>, id: Seq<char>) -> Option<int>
    decreases schemas,
{
    if schemas.len() == 0 {
        None
    } else if schemas.first().id@ == id {
        Some(0)
    } else {
        match sp_lookup_schema(schemas.drop_first(), id) {
            Some(i) => Some(i + 1),
            None => None,
        }
    }
}

/// A found schema index is in range and hits the URN.
pub proof fn lemma_lookup_schema(schemas: Seq<Schema>, id: Seq<char>)
    ensures
        sp_lookup_schema(schemas, id) matches Some(i) ==> 0 <= i < schemas.len() && schemas[i].id@
            == id,
    decreases schemas,
{
    if schemas.len() > 0 {
        lemma_lookup_schema(schemas.drop_first(), id);
    }
}

/// Looks a schema up by its exact URN.
pub fn lookup_schema(schemas: &Vec<Schema>, id: &str) -> (r: Option<usize>)
    ensures
        match r {
            Some(i) => sp_lookup_schema(schemas@, id@) == Some(i as int) && i < schemas@.len(),
            None => sp_lookup_schema(schemas@, id@) is None,
        },
{
    let mut i: usize = 0;
    while i < schemas.len()
        invariant
            i <= schemas@.len(),
            forall|k: int| 0 <= k < i ==> #[trigger] schemas@[k].id@ != id@,
        decreases schemas@.len() - i,
    {
        if str_eq(schemas[i].id.as_str(), id) {
            proof {
                lemma_lookup_schema_hit(schemas@, id@, i as int);
            }
            return Some(i);
        }
        i = i + 1;
    }
    proof {
        lemma_lookup_schema_none(schemas@, id@);
    }
    None
}

/// When every schema misses, the lookup yields nothing.
proof fn lemma_lookup_schema_none(schemas: Seq<Schema>, id: Seq<char>)
    requires
        forall|k: int| 0 <= k < schemas.len() ==> #[trigger] schemas[k].id@ != id,
    ensures
        sp_lookup_schema(schemas, id) is None,
    decreases schemas,
{
    if schemas.len() > 0 {
        assert(schemas.first().id@ != id);
        assert forall|k: int| 0 <= k < schemas.len() - 1 implies #[trigger] schemas.drop_first()[k].id@
            != id by {
            assert(schemas.drop_first()[k] == schemas[k + 1]);
        }
        lemma_lookup_schema_none(schemas.drop_first(), id);
    }
}

/// When the first `i` schemas miss and schema `i` hits, the lookup
/// yields `i`.
proof fn lemma_lookup_schema_hit(schemas: Seq<Schema>, id: Seq<char>, i: int)
    requires
        0 <= i < schemas.len(),
        forall|k: int| 0 <= k < i ==> #[trigger] schemas[k].id@ != id,
        schemas[i].id@ == id,
    ensures
        sp_lookup_schema(schemas, id) == Some(i),
    decreases schemas,
{
    if i > 0 {
        assert(schemas.first().id@ != id);
        assert forall|k: int| 0 <= k < i - 1 implies #[trigger] schemas.drop_first()[k].id@
            != id by {
            assert(schemas.drop_first()[k] == schemas[k + 1]);
        }
        assert(schemas.drop_first()[i - 1] == schemas[i]);
        lemma_lookup_schema_hit(schemas.drop_first(), id, i - 1);
    }
}

/// Index of the first resource type with exactly this name.
pub open spec fn sp_lookup_rts(rts: Seq<ResourceTypeState>, name: Seq<char>) -> Option<int>
    decreases rts,
{
    if rts.len() == 0 {
        None
    } else if rts.first().resource_type.name@ == name {
        Some(0)
    } else {
        match sp_lookup_rts(rts.drop_first(), name) {
            Some(i) => Some(i + 1),
            None => None,
        }
    }
}

/// A found resource-type index is in range and hits the name.
pub proof fn lemma_lookup_rts(rts: Seq<ResourceTypeState>, name: Seq<char>)
    ensures
        sp_lookup_rts(rts, name) matches Some(i) ==> 0 <= i < rts.len()
            && rts[i].resource_type.name@ == name,
    decreases rts,
{
    if rts.len() > 0 {
        lemma_lookup_rts(rts.drop_first(), name);
    }
}

/// Looks a resource type up by its exact name.
pub fn lookup_rts(rts: &Vec<ResourceTypeState>, name: &str) -> (r: Option<usize>)
    ensures
        match r {
            Some(i) => sp_lookup_rts(rts@, name@) == Some(i as int) && i < rts@.len(),
            None => sp_lookup_rts(rts@, name@) is None,
        },
{
    let mut i: usize = 0;
    while i < rts.len()
        invariant
            i <= rts@.len(),
            forall|k: int| 0 <= k < i ==> #[trigger] rts@[k].resource_type.name@ != name@,
        decreases rts@.len() - i,
    {
        if str_eq(rts[i].resource_type.name.as_str(), name) {
            proof {
                lemma_lookup_rts_hit(rts@, name@, i as int);
            }
            return Some(i);
        }
        i = i + 1;
    }
    proof {
        lemma_lookup_rts_none(rts@, name@, rts@.len() as int);
    }
    None
}

/// When the first `i` resource types miss and entry `i` hits, the
/// lookup yields `i`.
proof fn lemma_lookup_rts_hit(rts: Seq<ResourceTypeState>, name: Seq<char>, i: int)
    requires
        0 <= i < rts.len(),
        forall|k: int| 0 <= k < i ==> #[trigger] rts[k].resource_type.name@ != name,
        rts[i].resource_type.name@ == name,
    ensures
        sp_lookup_rts(rts, name) == Some(i),
    decreases rts,
{
    if i > 0 {
        assert(rts.first().resource_type.name@ != name);
        assert forall|k: int|
            0 <= k < i - 1 implies #[trigger] rts.drop_first()[k].resource_type.name@ != name by {
            assert(rts.drop_first()[k] == rts[k + 1]);
        }
        assert(rts.drop_first()[i - 1] == rts[i]);
        lemma_lookup_rts_hit(rts.drop_first(), name, i - 1);
    }
}

/// When every resource type misses, the lookup yields nothing.
proof fn lemma_lookup_rts_none(rts: Seq<ResourceTypeState>, name: Seq<char>, i: int)
    requires
        i == rts.len(),
        forall|k: int| 0 <= k < i ==> #[trigger] rts[k].resource_type.name@ != name,
    ensures
        sp_lookup_rts(rts, name) is None,
    decreases rts,
{
    if rts.len() > 0 {
        assert(rts.first().resource_type.name@ != name);
        assert forall|k: int|
            0 <= k < rts.len() - 1 implies #[trigger] rts.drop_first()[k].resource_type.name@
            != name by {
            assert(rts.drop_first()[k] == rts[k + 1]);
        }
        lemma_lookup_rts_none(rts.drop_first(), name, i - 1);
    }
}

/// Well-formedness of the framework state: every schema URN a resource
/// type references — core or extension — is registered.
pub open spec fn sp_cream_wf(c: Cream) -> bool {
    forall|i: int|
        0 <= i < c.resource_types@.len() ==> {
            let rt = (#[trigger] c.resource_types@[i]).resource_type;
            sp_lookup_schema(c.schemas@, rt.schema@) is Some && forall|j: int|
                0 <= j < rt.schema_extensions@.len() ==> sp_lookup_schema(
                    c.schemas@,
                    (#[trigger] rt.schema_extensions@[j]).schema@,
                ) is Some
        }
}

/// Builder for assembling a [`Cream`] state.
#[derive(Debug)]
pub struct CreamBuilder {
    /// The service's base URL.
    pub base_url: String,
    /// The service-provider configuration document.
    pub config: ServiceProviderConfig,
    /// The schemas collected so far.
    pub schemas: Vec<Schema>,
    /// The resource types collected so far.
    pub resource_types: Vec<ResourceTypeState>,
}

/// Registration of a batch of schemas: each is added unless its URN is
/// already present, in batch order.
pub open spec fn sp_add_schemas(cur: Seq<Schema>, more: Seq<Schema>) -> Seq<Schema>
    decreases more,
{
    if more.len() == 0 {
        cur
    } else {
        let cur2 = if sp_lookup_schema(cur, more.first().id@) is Some {
            cur
        } else {
            cur.push(more.first())
        };
        sp_add_schemas(cur2, more.drop_first())
    }
}

impl CreamBuilder {
    /// Create a new builder with the given base URL and service-provider
    /// configuration.
    pub fn new(base_url: &str, config: ServiceProviderConfig) -> (r: CreamBuilder)
        ensures
            r.base_url@ == base_url@,
            r.config == config,
            r.schemas@ == Seq::<Schema>::empty(),
            r.resource_types@ == Seq::<ResourceTypeState>::empty(),
    {
        CreamBuilder {
            base_url: String::from_str(base_url),
            config,
            schemas: Vec::new(),
            resource_types: Vec::new(),
        }
    }

    /// Add a new resource type, together with the schemas its manager
    /// declares and the manager's page size.  Schemas already registered
    /// under the same URN are kept as they are.
    pub fn resource_type(
        self,
        resource_type: ResourceType,
        mut schemas: Vec<Schema>,
        page_size: usize,
    ) -> (r: CreamBuilder)
        ensures
            r.base_url == self.base_url,
            r.config == self.config,
            r.schemas@ == sp_add_schemas(self.schemas@, schemas@),
            r.resource_types@ == self.resource_types@.push(
                ResourceTypeState { resource_type, page_size },
            ),
    {
        let mut out = self;
        let ghost more0 = schemas@;
        let ghost cur0 = out.schemas@;
        let ghost mut rem: Seq<Schema> = more0;
        loop
            invariant
                schemas@ == rem,
                sp_add_schemas(cur0, more0) == sp_add_schemas(out.schemas@, rem),
                out.base_url == self.base_url,
                out.config == self.config,
                out.resource_types == self.resource_types,
            ensures
                out.schemas@ == sp_add_schemas(cur0, more0),
                out.base_url == self.base_url,
                out.config == self.config,
                out.resource_types == self.resource_types,
            decreases schemas@.len(),
        {
            if schemas.len() == 0 {
                break;
            }
            let ghost rem_before = rem;
            let s = schemas.remove(0);
            proof {
                assert(rem_before.first() == s);
                assert(rem_before.drop_first() =~= schemas@);
                rem = rem_before.drop_first();
            }
            match lookup_schema(&out.schemas, s.id.as_str()) {
                Some(_) => {
                },
                None => {
                    out.schemas.push(s);
                },
            }
        }
        out.resource_types.push(ResourceTypeState { resource_type, page_size });
        out
    }

    /// Decides well-formedness of the assembled state.
    fn check_wf(c: &Cream) -> (r: bool)
        ensures
            r == sp_cream_wf(*c),
    {
        let mut i: usize = 0;
        while i < c.resource_types.len()
            invariant
                i <= c.resource_types@.len(),
                forall|k: int|
                    0 <= k < i ==> {
                        let rt = (#[trigger] c.resource_types@[k]).resource_type;
                        sp_lookup_schema(c.schemas@, rt.schema@) is Some && forall|j: int|
                            0 <= j < rt.schema_extensions@.len() ==> sp_lookup_schema(
                                c.schemas@,
                                (#[trigger] rt.schema_extensions@[j]).schema@,
                            ) is Some
                    },
            decreases c.resource_types@.len() - i,
        {
            let rt = &c.resource_types[i].resource_type;
            if lookup_schema(&c.schemas, rt.schema.as_str()).is_none() {
                proof {
                    assert(c.resource_types@[i as int].resource_type == *rt);
                    assert(!sp_cream_wf(*c));
                }
                return false;
            }
            let mut j: usize = 0;
            while j < rt.schema_extensions.len()
                invariant
                    i < c.resource_types@.len(),
                    *rt == c.resource_types@[i as int].resource_type,
                    j <= rt.schema_extensions@.len(),
                    forall|t: int|
                        0 <= t < j ==> sp_lookup_schema(
                            c.schemas@,
                            (#[trigger] rt.schema_extensions@[t]).schema@,
                        ) is Some,
                decreases rt.schema_extensions@.len() - j,
            {
                if lookup_schema(&c.schemas, rt.schema_extensions[j].schema.as_str()).is_none() {
                    proof {
                        assert(c.resource_types@[i as int].resource_type == *rt);
                        assert(rt.schema_extensions@[j as int].schema@ == rt.schema_extensions@[
                            j as int
                        ].schema@);
                        assert(!sp_cream_wf(*c));
                    }
                    return false;
                }
                j = j + 1;
            }
            i = i + 1;
        }
        true
    }

    /// Build the state.  Registration refuses to succeed when a resource
    /// type references a schema URN that was never provided.
    pub fn build(self) -> (r: Result<Cream, Error>)
        ensures
            match r {
                Ok(c) => c.base_url == self.base_url && c.config == self.config && c.schemas
                    == self.schemas && c.resource_types == self.resource_types && sp_cream_wf(c),
                Err(e) => !sp_cream_wf(
                    Cream {
                        base_url: self.base_url,
                        config: self.config,
                        schemas: self.schemas,
                        resource_types: self.resource_types,
                    },
                ) && e.status == 500 && e.scim_type is None && e.detail@
                    == "Resource type references an unregistered schema"@,
            },
    {
        let c = Cream {
            base_url: self.base_url,
            config: self.config,
            schemas: self.schemas,
            resource_types: self.resource_types,
        };
        if Self::check_wf(&c) {
            Ok(c)
        } else {
            Err(
                Error::new(
                    500,
                    None,
                    String::from_str("Resource type references an unregistered schema"),
                ),
            )
        }
    }
}

} // verus!
