use vstd::prelude::*;
use crate::json::{spec_get, json_model_of, parse_json, JsonValue};
use crate::tfstate::{spec_get_str, spec_s3_config, S3BackendConfig};
use crate::GraphError;

verus! {

/// A remote-state reference to state kept in a local file; the path is as
/// written in the snapshot, not yet canonicalized.
#[derive(Debug, Clone)]
pub struct LocalConfig {
    pub path: String,
}

/// The backend named by one remote-state resource of a snapshot.
#[derive(Debug, Clone)]
pub enum TerraformShowBackend {
    S3(S3BackendConfig),
    Local(LocalConfig),
}

/// Decodes the `values` blob of a remote-state resource: a `backend` tag of
/// `s3` or `local` with the matching `config` object. Any other tag is a
/// format contract violation and fails closed.
pub open spec fn spec_show_backend(v: JsonValue) -> Result<TerraformShowBackend, GraphError> {
    match spec_get_str(v, "backend"@) {
        Some(tag) => {
            if tag@ == "s3"@ {
                match spec_get(v, "config"@) {
                    Some(c) => match spec_s3_config(c) {
                        Ok(config) => Ok(TerraformShowBackend::S3(config)),
                        Err(e) => Err(e),
                    },
                    None => Err(GraphError::UnableToParse),
                }
            } else if tag@ == "local"@ {
                match spec_get(v, "config"@) {
                    Some(c) => match spec_get_str(c, "path"@) {
                        Some(path) => Ok(TerraformShowBackend::Local(LocalConfig { path })),
                        None => Err(GraphError::UnableToParse),
                    },
                    None => Err(GraphError::UnableToParse),
                }
            } else {
                Err(GraphError::UnableToParse)
            }
        },
        None => Err(GraphError::UnableToParse),
    }
}

/// Reads one resource entry: every resource carries `mode`, `type`, `name`
/// and `values`; only a read-only remote-state lookup (`mode` `data`, type
/// `terraform_remote_state`) contributes a backend reference.
pub open spec fn spec_resource_ref(r: JsonValue) -> Result<
    Option<TerraformShowBackend>,
    GraphError,
> {
    if spec_get_str(r, "mode"@) is Some && spec_get_str(r, "type"@) is Some && spec_get_str(
        r,
        "name"@,
    ) is Some && spec_get(r, "values"@) is Some {
        if spec_get_str(r, "mode"@)->0@ == "data"@ && spec_get_str(r, "type"@)->0@
            == "terraform_remote_state"@ {
            match spec_show_backend(spec_get(r, "values"@)->0) {
                Ok(b) => Ok(Some(b)),
                Err(e) => Err(e),
            }
        } else {
            Ok(None)
        }
    } else {
        Err(GraphError::UnableToParse)
    }
}

/// The backend references of a resource list, in resource order, duplicates
/// kept; the first malformed resource fails the whole list.
pub open spec fn spec_backends_of_resources(rs: Seq<JsonValue>) -> Result<
    Seq<TerraformShowBackend>,
    GraphError,
>
    decreases rs.len(),
{
    if rs.len() == 0 {
        Ok(Seq::<TerraformShowBackend>::empty())
    } else {
        match spec_backends_of_resources(rs.drop_last()) {
            Err(e) => Err(e),
            Ok(pre) => match spec_resource_ref(rs.last()) {
                Err(e) => Err(e),
                Ok(None) => Ok(pre),
                Ok(Some(b)) => Ok(pre.push(b)),
            },
        }
    }
}

/// Decodes a whole snapshot document: `format_version` string, `values`
/// object with a `root_module` object; a missing, null or empty resource
/// list yields no references.
pub open spec fn spec_show_doc(d: JsonValue) -> Result<Seq<TerraformShowBackend>, GraphError> {
    if spec_get_str(d, "format_version"@) is None {
        Err(GraphError::UnableToParse)
    } else {
        match spec_get(d, "values"@) {
            Some(v) => match spec_get(v, "root_module"@) {
                Some(rm) => {
                    if !(rm is Object) {
                        Err(GraphError::UnableToParse)
                    } else {
                        match spec_get(rm, "resources"@) {
                            None => Ok(Seq::<TerraformShowBackend>::empty()),
                            Some(JsonValue::Null) => Ok(Seq::<TerraformShowBackend>::empty()),
                            Some(JsonValue::Array(rs)) => spec_backends_of_resources(rs@),
                            Some(_) => Err(GraphError::UnableToParse),
                        }
                    }
                },
                None => Err(GraphError::UnableToParse),
            },
            None => Err(GraphError::UnableToParse),
        }
    }
}

/// Decodes a parse outcome as a snapshot.
pub open spec fn spec_show(doc: Option<JsonValue>) -> Result<Seq<TerraformShowBackend>, GraphError> {
    match doc {
        None => Err(GraphError::UnableToParse),
        Some(d) => spec_show_doc(d),
    }
}

fn show_backend_of_values(v: &JsonValue) -> (r: Result<TerraformShowBackend, GraphError>)
    ensures
        r == spec_show_backend(*v),
{
    let tag = match v.get("backend") {
        Some(JsonValue::Str(s)) => s.clone(),
        _ => {
            return Err(GraphError::UnableToParse);
        },
    };
    if tag.as_str().eq("s3") {
        match v.get("config") {
            Some(c) => match crate::tfstate::s3_config_of_doc(c) {
                Ok(config) => Ok(TerraformShowBackend::S3(config)),
                Err(e) => Err(e),
            },
            None => Err(GraphError::UnableToParse),
        }
    } else if tag.as_str().eq("local") {
        match v.get("config") {
            Some(c) => match c.get("path") {
                Some(JsonValue::Str(p)) => Ok(
                    TerraformShowBackend::Local(LocalConfig { path: p.clone() }),
                ),
                _ => Err(GraphError::UnableToParse),
            },
            None => Err(GraphError::UnableToParse),
        }
    } else {
        Err(GraphError::UnableToParse)
    }
}

fn resource_ref(r: &JsonValue) -> (res: Result<Option<TerraformShowBackend>, GraphError>)
    ensures
        res == spec_resource_ref(*r),
{
    let mode = match r.get("mode") {
        Some(JsonValue::Str(s)) => s.clone(),
        _ => {
            return Err(GraphError::UnableToParse);
        },
    };
    let kind = match r.get("type") {
        Some(JsonValue::Str(s)) => s.clone(),
        _ => {
            return Err(GraphError::UnableToParse);
        },
    };
    let name_ok = match r.get("name") {
        Some(JsonValue::Str(_)) => true,
        _ => false,
    };
    if !name_ok {
        return Err(GraphError::UnableToParse);
    }
    let values = match r.get("values") {
        Some(v) => v,
        None => {
            return Err(GraphError::UnableToParse);
        },
    };
    if mode.as_str().eq("data") && kind.as_str().eq("terraform_remote_state") {
        match show_backend_of_values(values) {
            Ok(b) => Ok(Some(b)),
            Err(e) => Err(e),
        }
    } else {
        Ok(None)
    }
}

fn backends_of_resources(rs: &Vec<JsonValue>) -> (r: Result<Vec<TerraformShowBackend>, GraphError>)
    ensures
        match r {
            Ok(v) => spec_backends_of_resources(rs@) == Ok::<_, GraphError>(v@),
            Err(e) => spec_backends_of_resources(rs@) == Err::<Seq<TerraformShowBackend>, _>(e),
        },
{
    let mut out: Vec<TerraformShowBackend> = Vec::new();
    let n = rs.len();
    let mut i: usize = 0;
    while i < n
        invariant
            i <= n,
            n == rs@.len(),
            spec_backends_of_resources(rs@.take(i as int)) == Ok::<_, GraphError>(out@),
        decreases n - i,
    {
        proof {
            assert(rs@.take(i + 1).drop_last() =~= rs@.take(i as int));
            assert(rs@.take(i + 1).last() == rs@[i as int]);
        }
        match resource_ref(&rs[i]) {
            Ok(Some(b)) => {
                out.push(b);
            },
            Ok(None) => {},
            Err(e) => {
                proof {
                    assert(spec_backends_of_resources(rs@.take(i + 1)) == Err::<
                        Seq<TerraformShowBackend>,
                        _,
                    >(e));
                    assert(rs@.take(rs@.len() as int) =~= rs@);
                    lemma_backends_error_persists(rs@, i + 1, e);
                }
                return Err(e);
            },
        }
        i = i + 1;
    }
    proof {
        assert(rs@.take(n as int) =~= rs@);
    }
    Ok(out)
}

proof fn lemma_backends_error_persists(rs: Seq<JsonValue>, i: int, e: GraphError)
    requires
        0 <= i <= rs.len(),
        spec_backends_of_resources(rs.take(i)) == Err::<Seq<TerraformShowBackend>, _>(e),
    ensures
        spec_backends_of_resources(rs) == Err::<Seq<TerraformShowBackend>, _>(e),
    decreases rs.len() - i,
{
    if i == rs.len() {
        assert(rs.take(i) =~= rs);
    } else {
        assert(rs.take(i + 1).drop_last() =~= rs.take(i));
        lemma_backends_error_persists(rs, i + 1, e);
    }
}

/// Extracts the backend references of a decoded snapshot document.
pub fn show_backends(d: &JsonValue) -> (r: Result<Vec<TerraformShowBackend>, GraphError>)
    ensures
        match r {
            Ok(v) => spec_show_doc(*d) == Ok::<_, GraphError>(v@),
            Err(e) => spec_show_doc(*d) == Err::<Seq<TerraformShowBackend>, _>(e),
        },
{
    let version_ok = match d.get("format_version") {
        Some(JsonValue::Str(_)) => true,
        _ => false,
    };
    if !version_ok {
        return Err(GraphError::UnableToParse);
    }
    let values = match d.get("values") {
        Some(v) => v,
        None => {
            return Err(GraphError::UnableToParse);
        },
    };
    let rm = match values.get("root_module") {
        Some(rm) => rm,
        None => {
            return Err(GraphError::UnableToParse);
        },
    };
    match rm {
        JsonValue::Object(_) => {},
        _ => {
            return Err(GraphError::UnableToParse);
        },
    }
    match rm.get("resources") {
        None => Ok(Vec::new()),
        Some(JsonValue::Null) => Ok(Vec::new()),
        Some(JsonValue::Array(rs)) => backends_of_resources(rs),
        Some(_) => Err(GraphError::UnableToParse),
    }
}

/// Parses a snapshot text and extracts the backend references its
/// remote-state resources make, in resource order.
pub fn show_dependencies(text: &str) -> (r: Result<Vec<TerraformShowBackend>, GraphError>)
    ensures
        match r {
            Ok(v) => spec_show(json_model_of(text@)) == Ok::<_, GraphError>(v@),
            Err(e) => spec_show(json_model_of(text@)) == Err::<Seq<TerraformShowBackend>, _>(e),
        },
{
    match parse_json(text) {
        Some(d) => show_backends(&d),
        None => Err(GraphError::UnableToParse),
    }
}

/// A snapshot whose root module holds no resources (an absent, null or
/// empty list) yields an empty reference set, not an error.
pub proof fn lemma_empty_snapshot_no_refs(d: JsonValue)
    requires
        spec_get_str(d, "format_version"@) is Some,
        spec_get(d, "values"@) is Some,
        spec_get(spec_get(d, "values"@)->0, "root_module"@) matches Some(rm) && rm is Object
            && match spec_get(rm, "resources"@) {
            None => true,
            Some(JsonValue::Null) => true,
            Some(JsonValue::Array(rs)) => rs@.len() == 0,
            Some(_) => false,
        },
    ensures
        spec_show_doc(d) == Ok::<_, GraphError>(Seq::<TerraformShowBackend>::empty()),
{
}

} // verus!
