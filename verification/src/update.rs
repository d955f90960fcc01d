//! The update translator: turns a PATCH document into a flat list of
//! canonical update items, so managers can match on `(path, op)`
//! uniformly.  A path-less add or replace with an object value operates
//! field-wise on the resource root and is split into one replace item
//! per top-level key; a key naming a registered extension schema is
//! descended into one level.

use vstd::prelude::*;

use crate::error::{Error, ErrorType};
use crate::filter::{AttrPath, SpecAttrPath, ValuePath, SpecValuePath};
use crate::json::{JsonValue, SpecJson, view_json_entries, lemma_view_json_entries};
use crate::manager::{
    SpecUpdateItem, SpecUpdateOp, UpdateOp, UpdateResourceItem, view_update_items,
    lemma_view_update_items,
};
use crate::resource_type::{SchemaExtension, SpecSchemaExtension, view_extensions,
    lemma_view_extensions};
use crate::text::{seq_ieq, eq_ignore_ascii_case};

verus! {

/// The operation keyword of one PATCH operation.
#[derive(Debug, Clone, Copy, PartialEq, Eq, Structural)]
pub enum PatchOperationType {
    /// `add`
    Add,
    /// `replace`
    Replace,
    /// `remove`
    Remove,
}

impl PatchOperationType {
    /// Reads the operation keyword, ASCII-case-insensitively; any other
    /// text is rejected as an invalid value.
    pub fn from_str(s: &str) -> (r: Result<PatchOperationType, Error>)
        ensures
            match r {
                Ok(t) => (seq_ieq(s@, "add"@) && t == PatchOperationType::Add) || (seq_ieq(
                    s@,
                    "replace"@,
                ) && t == PatchOperationType::Replace) || (seq_ieq(s@, "remove"@) && t
                    == PatchOperationType::Remove),
                Err(e) => !seq_ieq(s@, "add"@) && !seq_ieq(s@, "replace"@) && !seq_ieq(
                    s@,
                    "remove"@,
                ) && e.status == 400 && e.scim_type == Some(ErrorType::InvalidValue) && e.detail@
                    == "Expected Patch Operation"@,
            },
    {
        if eq_ignore_ascii_case(s, "add") {
            Ok(PatchOperationType::Add)
        } else if eq_ignore_ascii_case(s, "replace") {
            Ok(PatchOperationType::Replace)
        } else if eq_ignore_ascii_case(s, "remove") {
            Ok(PatchOperationType::Remove)
        } else {
            let e = Error::expected("Patch Operation");
            proof {
                reveal_strlit("Expected ");
                reveal_strlit("Patch Operation");
                reveal_strlit("Expected Patch Operation");
                assert(e.detail@ =~= "Expected Patch Operation"@);
            }
            Err(e)
        }
    }
}

/// Model of one incoming PATCH operation.
pub struct SpecPatchOperation {
    pub op: PatchOperationType,
    pub path: Seq<char>,
    pub value: SpecJson,
}

/// One incoming PATCH operation: the keyword, an optional path (empty
/// when absent) and an optional value (`null` when absent).
#[derive(Debug, PartialEq, Eq)]
pub struct PatchOperation {
    /// The operation keyword.
    pub op: PatchOperationType,
    /// The attribute path the operation addresses; empty when absent.
    pub path: String,
    /// The value carried by the operation; `null` when absent.
    pub value: JsonValue,
}

impl View for PatchOperation {
    type V = SpecPatchOperation;

    open spec fn view(&self) -> SpecPatchOperation {
        SpecPatchOperation { op: self.op, path: self.path@, value: self.value@ }
    }
}

/// The first extension whose schema URN matches `key`,
/// ASCII-case-insensitively.
pub open spec fn sp_find_ext(
    exts: Seq<SpecSchemaExtension>,
    key: Seq<char>,
) -> Option<SpecSchemaExtension>
    decreases exts,
{
    if exts.len() == 0 {
        None
    } else if seq_ieq(key, exts.first().schema) {
        Some(exts.first())
    } else {
        sp_find_ext(exts.drop_first(), key)
    }
}

/// One flat replace item addressing a top-level key.
pub open spec fn sp_root_item(key: Seq<char>, value: SpecJson, schema: Seq<char>, is_core: bool) -> SpecUpdateItem {
    SpecUpdateItem {
        path: Some(
            SpecValuePath::Attr(
                SpecAttrPath {
                    urn: if is_core {
                        None
                    } else {
                        Some(schema)
                    },
                    name: key,
                    sub_attr: None,
                },
            ),
        ),
        op: SpecUpdateOp::Replace(value),
    }
}

/// Field-wise translation of an object value: one replace item per key,
/// in object order; a key naming an extension schema whose value is an
/// object is descended into, one level.
pub open spec fn sp_normalize_update(
    entries: Seq<(Seq<char>, SpecJson)>,
    schema: Seq<char>,
    exts: Seq<SpecSchemaExtension>,
    is_core: bool,
) -> Seq<SpecUpdateItem>
    decreases exts.len(), entries.len(),
{
    if entries.len() == 0 {
        Seq::empty()
    } else {
        let key = entries.first().0;
        let value = entries.first().1;
        let rest = sp_normalize_update(entries.drop_first(), schema, exts, is_core);
        match value {
            SpecJson::Object(inner) => match sp_find_ext(exts, key) {
                Some(ext) => if exts.len() > 0 {
                    sp_normalize_update(inner, ext.schema, Seq::empty(), false) + rest
                } else {
                    rest
                },
                None => seq![sp_root_item(key, value, schema, is_core)] + rest,
            },
            _ => seq![sp_root_item(key, value, schema, is_core)] + rest,
        }
    }
}

/// Looks the first ASCII-case-insensitive match for `key` up among the
/// extensions.
fn find_ext<'a>(exts: &'a Vec<SchemaExtension>, key: &str) -> (r: Option<&'a SchemaExtension>)
    ensures
        match r {
            Some(e) => sp_find_ext(view_extensions(exts@), key@) == Some(e@),
            None => sp_find_ext(view_extensions(exts@), key@) is None,
        },
{
    proof {
        lemma_view_extensions(exts@);
        assert(view_extensions(exts@).skip(0) =~= view_extensions(exts@));
    }
    let mut i: usize = 0;
    while i < exts.len()
        invariant
            i <= exts@.len(),
            view_extensions(exts@).len() == exts@.len(),
            forall|k: int| 0 <= k < exts@.len() ==> view_extensions(exts@)[k] == #[trigger] exts@[k]@,
            sp_find_ext(view_extensions(exts@), key@) == sp_find_ext(
                view_extensions(exts@).skip(i as int),
                key@,
            ),
        decreases exts@.len() - i,
    {
        proof {
            assert(view_extensions(exts@)[i as int] == exts@[i as int]@);
            assert(view_extensions(exts@).skip(i as int).first() == view_extensions(exts@)[
                i as int
            ]);
            assert(view_extensions(exts@).skip(i as int).drop_first() =~= view_extensions(
                exts@,
            ).skip(i as int + 1));
        }
        if eq_ignore_ascii_case(key, exts[i].schema.as_str()) {
            return Some(&exts[i]);
        }
        i = i + 1;
    }
    proof {
        assert(view_extensions(exts@).skip(i as int).len() == 0);
    }
    None
}

/// Translates a path-less add or replace of an object field-wise into
/// flat replace items, one per top-level key, in object order; a key
/// naming a registered extension schema is descended into one level.
pub fn normalize_update(
    obj: Vec<(String, JsonValue)>,
    schema: &str,
    exts: &Vec<SchemaExtension>,
    is_core: bool,
) -> (r: Vec<UpdateResourceItem>)
    ensures
        view_update_items(r@) == sp_normalize_update(
            view_json_entries(obj@),
            schema@,
            view_extensions(exts@),
            is_core,
        ),
    decreases exts@.len(), obj@.len(),
{
    let ghost sentries = view_json_entries(obj@);
    let mut obj = obj;
    if obj.len() == 0 {
        proof {
            lemma_view_json_entries(obj@);
            assert(view_update_items(Seq::<UpdateResourceItem>::empty())
                =~= Seq::<SpecUpdateItem>::empty());
        }
        Vec::new()
    } else {
        let ghost orig = obj@;
        let hd = obj.remove(0);
        proof {
            assert(orig.first() == hd);
            assert(orig.drop_first() =~= obj@);
            lemma_view_json_entries(orig);
            lemma_view_json_entries(obj@);
            assert(view_json_entries(orig).first() == (hd.0@, hd.1@));
            assert forall|k: int| 0 <= k < obj@.len() implies view_json_entries(
                orig,
            ).drop_first()[k] == view_json_entries(obj@)[k] by {
                assert(view_json_entries(orig)[k + 1] == (orig[k + 1].0@, orig[k + 1].1@));
                assert(orig[k + 1] == obj@[k]);
                assert(view_json_entries(obj@)[k] == (obj@[k].0@, obj@[k].1@));
            }
            assert(view_json_entries(orig).drop_first() =~= view_json_entries(obj@));
            assert(sentries == view_json_entries(orig));
        }
        let (key, value) = hd;
        let mut first_items: Vec<UpdateResourceItem>;
        match value {
            JsonValue::Object(inner) => {
                match find_ext(exts, key.as_str()) {
                    Some(ext) => {
                        let no_exts: Vec<SchemaExtension> = Vec::new();
                        proof {
                            assert(view_extensions(no_exts@) =~= Seq::<SpecSchemaExtension>::empty());
                        }
                        first_items = normalize_update(inner, ext.schema.as_str(), &no_exts, false);
                    },
                    None => {
                        first_items = Vec::new();
                        first_items.push(
                            UpdateResourceItem {
                                path: Some(
                                    ValuePath::Attr(
                                        AttrPath {
                                            urn: if is_core {
                                                None
                                            } else {
                                                Some(String::from_str(schema))
                                            },
                                            name: key,
                                            sub_attr: None,
                                        },
                                    ),
                                ),
                                op: UpdateOp::Replace(JsonValue::Object(inner)),
                            },
                        );
                        proof {
                            lemma_view_update_items(first_items@);
                        }
                    },
                }
            },
            other => {
                first_items = Vec::new();
                first_items.push(
                    UpdateResourceItem {
                        path: Some(
                            ValuePath::Attr(
                                AttrPath {
                                    urn: if is_core {
                                        None
                                    } else {
                                        Some(String::from_str(schema))
                                    },
                                    name: key,
                                    sub_attr: None,
                                },
                            ),
                        ),
                        op: UpdateOp::Replace(other),
                    },
                );
                proof {
                    lemma_view_update_items(first_items@);
                }
            },
        }
        let mut rest_items = normalize_update(obj, schema, exts, is_core);
        let ghost first0 = first_items@;
        let ghost rest0 = rest_items@;
        first_items.append(&mut rest_items);
        proof {
            lemma_view_update_items(first_items@);
            lemma_view_update_items(first0);
            lemma_view_update_items(rest0);
            assert forall|k: int| 0 <= k < first_items@.len() implies view_update_items(
                first_items@,
            )[k] == (view_update_items(first0) + view_update_items(rest0))[k] by {
                assert(view_update_items(first_items@)[k] == first_items@[k]@);
                if k < first0.len() {
                    assert(first_items@[k] == first0[k]);
                } else {
                    assert(first_items@[k] == rest0[k - first0.len()]);
                }
            }
            assert(view_update_items(first_items@) =~= view_update_items(first0)
                + view_update_items(rest0));
        }
        first_items
    }
}

} // verus!
