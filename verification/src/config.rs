//! The service-provider configuration document: which optional SCIM
//! features this server supports.

use vstd::prelude::*;

use crate::meta::Meta;

verus! {

/// Whether PATCH is supported.
#[derive(Debug, Clone, Copy, PartialEq, Eq, Structural)]
pub struct ServiceProviderConfigPatch {
    /// PATCH support flag.
    pub supported: bool,
}

/// Whether bulk operations are supported, and their limits.
#[derive(Debug, Clone, Copy, PartialEq, Eq, Structural)]
pub struct ServiceProviderConfigBulk {
    /// Bulk support flag.
    pub supported: bool,
    /// Greatest number of operations in one bulk request.
    pub max_operations: i32,
    /// Greatest payload size of one bulk request, in bytes.
    pub max_payload_size: i32,
}

/// Whether filtering is supported, and its result cap.
#[derive(Debug, Clone, Copy, PartialEq, Eq, Structural)]
pub struct ServiceProviderConfigFilter {
    /// Filter support flag.
    pub supported: bool,
    /// Greatest number of results a filtered listing returns.
    pub max_results: i32,
}

/// Whether password change is supported.
#[derive(Debug, Clone, Copy, PartialEq, Eq, Structural)]
pub struct ServiceProviderConfigChangePassword {
    /// Password-change support flag.
    pub supported: bool,
}

/// Whether sorting is supported.
#[derive(Debug, Clone, Copy, PartialEq, Eq, Structural)]
pub struct ServiceProviderConfigSort {
    /// Sort support flag.
    pub supported: bool,
}

/// Whether entity tags are supported.
#[derive(Debug, Clone, Copy, PartialEq, Eq, Structural)]
pub struct ServiceProviderConfigEtag {
    /// Entity-tag support flag.
    pub supported: bool,
}

/// One supported authentication scheme.
#[derive(Debug, Clone, PartialEq, Eq)]
pub struct ServiceProviderConfigAuthenticationScheme {
    /// Name of the scheme.
    pub name: String,
    /// Description of the scheme.
    pub description: String,
    /// URL of the scheme's specification.
    pub spec_uri: Option<String>,
    /// URL of the scheme's documentation.
    pub documentation_uri: Option<String>,
    /// The scheme type keyword.
    pub type_: String,
    /// Whether this is the primary scheme.
    pub primary: Option<bool>,
}

/// The service-provider configuration document.
#[derive(Debug, PartialEq, Eq)]
pub struct ServiceProviderConfig {
    /// URL of this service's documentation.
    pub documentation_uri: Option<String>,
    /// PATCH support.
    pub patch: ServiceProviderConfigPatch,
    /// Bulk support.
    pub bulk: ServiceProviderConfigBulk,
    /// Filter support.
    pub filter: ServiceProviderConfigFilter,
    /// Password-change support.
    pub change_password: ServiceProviderConfigChangePassword,
    /// Sort support.
    pub sort: ServiceProviderConfigSort,
    /// Entity-tag support.
    pub etag: ServiceProviderConfigEtag,
    /// The supported authentication schemes.
    pub authentication_schemes: Vec<ServiceProviderConfigAuthenticationScheme>,
    /// Metadata about this document.
    pub meta: Meta,
}

} // verus!

verus! {

/// Model of one authentication scheme.
pub struct SpecAuthScheme {
    pub name: Seq<char>,
    pub description: Seq<char>,
    pub spec_uri: Option<Seq<char>>,
    pub documentation_uri: Option<Seq<char>>,
    pub type_: Seq<char>,
    pub primary: Option<bool>,
}

impl View for ServiceProviderConfigAuthenticationScheme {
    type V = SpecAuthScheme;

    open spec fn view(&self) -> SpecAuthScheme {
        SpecAuthScheme {
            name: self.name@,
            description: self.description@,
            spec_uri: match &self.spec_uri {
                Some(s) => Some(s@),
                None => None,
            },
            documentation_uri: match &self.documentation_uri {
                Some(s) => Some(s@),
                None => None,
            },
            type_: self.type_@,
            primary: self.primary,
        }
    }
}

/// Models of a sequence of authentication schemes, element-wise.
pub open spec fn view_auth_schemes(vs: Seq<ServiceProviderConfigAuthenticationScheme>) -> Seq<
    SpecAuthScheme,
>
    decreases vs,
{
    if vs.len() == 0 {
        Seq::empty()
    } else {
        view_auth_schemes(vs.drop_last()).push(vs.last()@)
    }
}

/// Model of the service-provider configuration.
pub struct SpecConfig {
    pub documentation_uri: Option<Seq<char>>,
    pub patch: ServiceProviderConfigPatch,
    pub bulk: ServiceProviderConfigBulk,
    pub filter: ServiceProviderConfigFilter,
    pub change_password: ServiceProviderConfigChangePassword,
    pub sort: ServiceProviderConfigSort,
    pub etag: ServiceProviderConfigEtag,
    pub authentication_schemes: Seq<SpecAuthScheme>,
    pub meta: crate::meta::SpecMeta,
}

impl View for ServiceProviderConfig {
    type V = SpecConfig;

    open spec fn view(&self) -> SpecConfig {
        SpecConfig {
            documentation_uri: match &self.documentation_uri {
                Some(s) => Some(s@),
                None => None,
            },
            patch: self.patch,
            bulk: self.bulk,
            filter: self.filter,
            change_password: self.change_password,
            sort: self.sort,
            etag: self.etag,
            authentication_schemes: view_auth_schemes(self.authentication_schemes@),
            meta: self.meta@,
        }
    }
}

/// Copies one authentication scheme.
fn copy_auth_scheme(a: &ServiceProviderConfigAuthenticationScheme) -> (r:
    ServiceProviderConfigAuthenticationScheme)
    ensures
        r@ == a@,
{
    ServiceProviderConfigAuthenticationScheme {
        name: a.name.clone(),
        description: a.description.clone(),
        spec_uri: crate::meta::copy_opt_string(&a.spec_uri),
        documentation_uri: crate::meta::copy_opt_string(&a.documentation_uri),
        type_: a.type_.clone(),
        primary: a.primary,
    }
}

/// Copies the configuration document.
pub fn copy_config(c: &ServiceProviderConfig) -> (r: ServiceProviderConfig)
    ensures
        r@ == c@,
{
    let mut schemes: Vec<ServiceProviderConfigAuthenticationScheme> = Vec::new();
    let mut i: usize = 0;
    while i < c.authentication_schemes.len()
        invariant
            i <= c.authentication_schemes@.len(),
            schemes@.len() == i,
            forall|k: int|
                0 <= k < i ==> (#[trigger] schemes@[k])@ == c.authentication_schemes@[k]@,
        decreases c.authentication_schemes@.len() - i,
    {
        let s = copy_auth_scheme(&c.authentication_schemes[i]);
        schemes.push(s);
        i = i + 1;
    }
    proof {
        lemma_view_auth_schemes(schemes@);
        lemma_view_auth_schemes(c.authentication_schemes@);
        assert forall|k: int|
            0 <= k < schemes@.len() implies view_auth_schemes(schemes@)[k] == view_auth_schemes(
            c.authentication_schemes@,
        )[k] by {
            assert(schemes@[k]@ == c.authentication_schemes@[k]@);
        }
        assert(view_auth_schemes(schemes@) =~= view_auth_schemes(c.authentication_schemes@));
    }
    ServiceProviderConfig {
        documentation_uri: crate::meta::copy_opt_string(&c.documentation_uri),
        patch: c.patch,
        bulk: c.bulk,
        filter: c.filter,
        change_password: c.change_password,
        sort: c.sort,
        etag: c.etag,
        authentication_schemes: schemes,
        meta: crate::meta::copy_meta(&c.meta),
    }
}

/// The model of a sequence of authentication schemes has the same length
/// and holds the models of its elements, in order.
pub proof fn lemma_view_auth_schemes(vs: Seq<ServiceProviderConfigAuthenticationScheme>)
    ensures
        view_auth_schemes(vs).len() == vs.len(),
        forall|i: int| 0 <= i < vs.len() ==> view_auth_schemes(vs)[i] == #[trigger] vs[i]@,
    decreases vs,
{
    if vs.len() > 0 {
        lemma_view_auth_schemes(vs.drop_last());
        assert(view_auth_schemes(vs) == view_auth_schemes(vs.drop_last()).push(vs.last()@));
        assert forall|i: int| 0 <= i < vs.len() implies view_auth_schemes(vs)[i]
            == #[trigger] vs[i]@ by {
            if i < vs.len() - 1 {
                assert(vs.drop_last()[i] == vs[i]);
            } else {
                assert(vs.last() == vs[i]);
            }
        }
    }
}

} // verus!
