use vstd::prelude::*;
use vstd::string::*;
use crate::json::{spec_get, json_model_of, parse_json, JsonValue};
use crate::GraphError;

verus! {

/// Location of state persisted in an object-storage backend.
#[derive(Debug, Clone)]
pub struct S3BackendConfig {
    pub bucket: String,
    pub region: String,
    pub key: String,
}

/// Where a root's state is persisted: a remote object-storage backend, or a
/// canonicalized local directory.
#[derive(Debug, Clone)]
pub enum TerraformState {
    Remote(S3BackendConfig),
    Local(String),
}

impl S3BackendConfig {
    /// The canonical identity string of this backend:
    /// `s3:<region>/<bucket>/<key>`.
    pub open spec fn identity_view(&self) -> Seq<char> {
        "s3:"@ + self.region@ + "/"@ + self.bucket@ + "/"@ + self.key@
    }

    pub fn identity_string(&self) -> (r: String)
        ensures
            r@ == self.identity_view(),
    {
        let mut s = String::from_str("s3:");
        s.append(self.region.as_str());
        s.append("/");
        s.append(self.bucket.as_str());
        s.append("/");
        s.append(self.key.as_str());
        s
    }
}

impl TerraformState {
    /// The canonical identity string: the two variants carry distinct scheme
    /// prefixes, so a remote and a local backend never share an identity.
    pub open spec fn identity_view(&self) -> Seq<char> {
        match self {
            TerraformState::Remote(config) => config.identity_view(),
            TerraformState::Local(dir) => "local:"@ + dir@,
        }
    }

    pub fn identity_string(&self) -> (r: String)
        ensures
            r@ == self.identity_view(),
    {
        match self {
            TerraformState::Remote(config) => config.identity_string(),
            TerraformState::Local(dir) => {
                let mut s = String::from_str("local:");
                s.append(dir.as_str());
                s
            },
        }
    }
}

/// The string under `key` when `v` is an object holding one there.
pub open spec fn spec_get_str(v: JsonValue, key: Seq<char>) -> Option<String> {
    match spec_get(v, key) {
        Some(JsonValue::Str(s)) => Some(s),
        _ => None,
    }
}

/// Decodes an object-storage backend configuration: an object with string
/// fields `bucket`, `region` and `key`.
pub open spec fn spec_s3_config(c: JsonValue) -> Result<S3BackendConfig, GraphError> {
    if spec_get_str(c, "bucket"@) is Some && spec_get_str(c, "region"@) is Some && spec_get_str(
        c,
        "key"@,
    ) is Some {
        Ok(
            S3BackendConfig {
                bucket: spec_get_str(c, "bucket"@)->0,
                region: spec_get_str(c, "region"@)->0,
                key: spec_get_str(c, "key"@)->0,
            },
        )
    } else {
        Err(GraphError::UnableToParse)
    }
}

/// Whether the descriptor carries a `version` field holding an integer that
/// fits a 32-bit count, as the remote state schema demands.
pub open spec fn spec_version_ok(d: JsonValue) -> bool {
    match spec_get(d, "version"@) {
        Some(JsonValue::Int(v)) => i32::MIN as i64 <= v <= i32::MAX as i64,
        _ => false,
    }
}

/// Decodes a remote state descriptor document: `version` plus a `backend`
/// object whose `type` is `s3` and whose `config` decodes as
/// `spec_s3_config`. Any other backend kind fails closed.
pub open spec fn spec_remote_state_doc(d: JsonValue) -> Result<TerraformState, GraphError> {
    if !spec_version_ok(d) {
        Err(GraphError::UnableToParse)
    } else {
        match spec_get(d, "backend"@) {
            Some(b) => {
                if spec_get_str(b, "type"@) is Some && spec_get_str(b, "type"@)->0@ == "s3"@ {
                    match spec_get(b, "config"@) {
                        Some(c) => match spec_s3_config(c) {
                            Ok(config) => Ok(TerraformState::Remote(config)),
                            Err(e) => Err(e),
                        },
                        None => Err(GraphError::UnableToParse),
                    }
                } else {
                    Err(GraphError::UnableToParse)
                }
            },
            None => Err(GraphError::UnableToParse),
        }
    }
}

/// Decodes a parse outcome as a remote state descriptor.
pub open spec fn spec_remote_state(doc: Option<JsonValue>) -> Result<TerraformState, GraphError> {
    match doc {
        None => Err(GraphError::UnableToParse),
        Some(d) => spec_remote_state_doc(d),
    }
}

/// Reads a string field out of an object, cloning it.
fn get_str_field(v: &JsonValue, key: &str) -> (r: Option<String>)
    ensures
        r == spec_get_str(*v, key@),
{
    match v.get(key) {
        Some(JsonValue::Str(s)) => Some(s.clone()),
        _ => None,
    }
}

pub(crate) fn s3_config_of_doc(c: &JsonValue) -> (r: Result<S3BackendConfig, GraphError>)
    ensures
        r == spec_s3_config(*c),
{
    let bucket = get_str_field(c, "bucket");
    let region = get_str_field(c, "region");
    let key = get_str_field(c, "key");
    match (bucket, region, key) {
        (Some(bucket), Some(region), Some(key)) => Ok(S3BackendConfig { bucket, region, key }),
        _ => Err(GraphError::UnableToParse),
    }
}

fn remote_state_of_doc(d: &JsonValue) -> (r: Result<TerraformState, GraphError>)
    ensures
        r == spec_remote_state_doc(*d),
{
    let version_ok = match d.get("version") {
        Some(JsonValue::Int(v)) => i32::MIN as i64 <= *v && *v <= i32::MAX as i64,
        _ => false,
    };
    if !version_ok {
        return Err(GraphError::UnableToParse);
    }
    let b = match d.get("backend") {
        Some(b) => b,
        None => {
            return Err(GraphError::UnableToParse);
        },
    };
    let kind_is_s3 = match get_str_field(b, "type") {
        Some(t) => t.as_str().eq("s3"),
        None => false,
    };
    if !kind_is_s3 {
        return Err(GraphError::UnableToParse);
    }
    match b.get("config") {
        Some(c) => match s3_config_of_doc(c) {
            Ok(config) => Ok(TerraformState::Remote(config)),
            Err(e) => Err(e),
        },
        None => Err(GraphError::UnableToParse),
    }
}

impl TerraformState {
    /// Parses the text of a remote/initialized state descriptor file.
    pub fn parse_remote(text: &str) -> (r: Result<TerraformState, GraphError>)
        ensures
            r == spec_remote_state(json_model_of(text@)),
    {
        match parse_json(text) {
            Some(d) => remote_state_of_doc(&d),
            None => Err(GraphError::UnableToParse),
        }
    }

    /// Resolves a root's backend identity from what was found on disk: the
    /// text of the remote descriptor when one exists, else the canonicalized
    /// directory of a local state file, else no state at all.
    pub fn from_root(path: &str, remote_text: Option<&str>, local_dir: Option<String>) -> (r:
        Result<TerraformState, GraphError>)
        ensures
            remote_text matches Some(t) ==> r == spec_remote_state(json_model_of(t@)),
            remote_text is None && local_dir is Some ==> r == Ok::<TerraformState, GraphError>(
                TerraformState::Local(local_dir->0),
            ),
            remote_text is None && local_dir is None ==> (r matches Err(
                GraphError::NoStateFile(p),
            ) && p@ == path@),
    {
        match remote_text {
            Some(t) => TerraformState::parse_remote(t),
            None => match local_dir {
                Some(d) => Ok(TerraformState::Local(d)),
                None => Err(GraphError::NoStateFile(String::from_str(path))),
            },
        }
    }
}

/// `s` holds no separator character.
pub open spec fn no_slash(s: Seq<char>) -> bool {
    forall|i: int| 0 <= i < s.len() ==> s[i] != '/'
}

proof fn lemma_slash_split(a1: Seq<char>, t1: Seq<char>, a2: Seq<char>, t2: Seq<char>)
    requires
        no_slash(a1),
        no_slash(a2),
        a1 + seq!['/'] + t1 == a2 + seq!['/'] + t2,
    ensures
        a1 == a2,
        t1 == t2,
{
    let s = a1 + seq!['/'] + t1;
    assert(s == a2 + seq!['/'] + t2);
    if a1.len() < a2.len() {
        assert(s[a1.len() as int] == '/');
        assert(s[a1.len() as int] == a2[a1.len() as int]);
        assert(false);
    }
    if a2.len() < a1.len() {
        assert(s[a2.len() as int] == '/');
        assert(s[a2.len() as int] == a1[a2.len() as int]);
        assert(false);
    }
    assert(a1.len() == a2.len());
    assert forall|i: int| 0 <= i < a1.len() implies a1[i] == a2[i] by {
        assert(s[i] == a1[i]);
        assert(s[i] == a2[i]);
    }
    assert(a1 =~= a2);
    assert forall|i: int| 0 <= i < t1.len() implies t1[i] == t2[i] by {
        assert(s[a1.len() + 1 + i] == t1[i]);
        assert(s[a2.len() + 1 + i] == t2[i]);
    }
    assert(t1 =~= t2);
}

/// Two roots that persist state in the same canonicalized local directory
/// carry the same backend identity.
pub proof fn lemma_local_identity_deterministic(d1: String, d2: String)
    requires
        d1@ == d2@,
    ensures
        TerraformState::Local(d1).identity_view() == TerraformState::Local(d2).identity_view(),
{
}

/// A remote identity string round-trips its (region, bucket, key) triple
/// losslessly: as long as region and bucket hold no `/`, no two distinct
/// triples render to one string.
pub proof fn lemma_remote_identity_injective(c1: S3BackendConfig, c2: S3BackendConfig)
    requires
        no_slash(c1.region@),
        no_slash(c1.bucket@),
        no_slash(c2.region@),
        no_slash(c2.bucket@),
        c1.identity_view() == c2.identity_view(),
    ensures
        c1.region@ == c2.region@,
        c1.bucket@ == c2.bucket@,
        c1.key@ == c2.key@,
{
    reveal_strlit("s3:");
    reveal_strlit("/");
    assert("/"@ =~= seq!['/']);
    let u1 = c1.region@ + seq!['/'] + (c1.bucket@ + seq!['/'] + c1.key@);
    let u2 = c2.region@ + seq!['/'] + (c2.bucket@ + seq!['/'] + c2.key@);
    assert(c1.identity_view() =~= "s3:"@ + u1);
    assert(c2.identity_view() =~= "s3:"@ + u2);
    assert("s3:"@.len() == 3);
    assert(u1 =~= ("s3:"@ + u1).subrange(3, ("s3:"@ + u1).len() as int));
    assert(u2 =~= ("s3:"@ + u2).subrange(3, ("s3:"@ + u2).len() as int));
    lemma_slash_split(
        c1.region@,
        c1.bucket@ + seq!['/'] + c1.key@,
        c2.region@,
        c2.bucket@ + seq!['/'] + c2.key@,
    );
    lemma_slash_split(c1.bucket@, c1.key@, c2.bucket@, c2.key@);
}

/// A remote identity and a local identity never collide: the scheme
/// prefixes differ in their first character.
pub proof fn lemma_identity_schemes_disjoint(config: S3BackendConfig, dir: String)
    ensures
        TerraformState::Remote(config).identity_view() != TerraformState::Local(
            dir,
        ).identity_view(),
{
    reveal_strlit("s3:");
    reveal_strlit("local:");
    let r = TerraformState::Remote(config).identity_view();
    let l = TerraformState::Local(dir).identity_view();
    assert(r[0] == 's');
    assert(l[0] == 'l');
    assert(r != l) by {
        if r == l {
            assert(r[0] == l[0]);
        }
    }
}

} // verus!
