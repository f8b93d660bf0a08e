//! Configuration: of the storage and model adapters, of the assembled
//! system (with the checks its builder makes), and of the dreaming job.
use vstd::prelude::*;

use crate::auth::{env_opt, or_default, spec_env_opt};
use crate::error::{ErrorView, MindPalaceError};
use crate::tenant::{IdentityView, TenantContext};
use crate::text::{copy_str, spec_trim};

verus! {

broadcast use vstd::string::group_string_axioms;

// ---------------------------------------------------------------------------
// Adapters
// ---------------------------------------------------------------------------

/// The page store's bucket and key prefix.
#[derive(Debug, Clone)]
pub struct S3PageStoreConfig {
    pub bucket_name: String,
    pub prefix: String,
}

/// The graph store's table.
#[derive(Debug, Clone)]
pub struct DynamoGraphStoreConfig {
    pub table_name: String,
}

/// The group store's table.
#[derive(Debug, Clone)]
pub struct DynamoGroupStoreConfig {
    pub table_name: String,
}

/// The vector store's bucket and index.
#[derive(Debug, Clone)]
pub struct S3VectorsSearchConfig {
    pub bucket_name: String,
    pub index_name: String,
}

/// The embedding model.
#[derive(Debug, Clone)]
pub struct BedrockEmbeddingConfig {
    pub model_id: String,
}

impl Default for BedrockEmbeddingConfig {
    /// Titan text embeddings v2.
    fn default() -> (r: Self)
        ensures
            r.model_id@ == "amazon.titan-embed-text-v2:0"@,
    {
        BedrockEmbeddingConfig { model_id: String::from_str("amazon.titan-embed-text-v2:0") }
    }
}

// ---------------------------------------------------------------------------
// The assembled system
// ---------------------------------------------------------------------------

/// Where pages are stored.
#[derive(Debug, Clone)]
pub struct S3Config {
    pub bucket_name: String,
    pub region: String,
    pub prefix: String,
}

/// Where the graph is stored.
#[derive(Debug, Clone)]
pub struct DynamoConfig {
    pub table_name: String,
    pub region: String,
}

/// Where vectors are stored.
#[derive(Debug, Clone)]
pub struct S3VectorsConfig {
    pub bucket_name: String,
    pub index_name: String,
    pub region: String,
}

/// The embedding model and its region.
#[derive(Debug, Clone)]
pub struct BedrockConfig {
    pub model_id: String,
    pub region: String,
}

/// Collects the configuration of the system, with an optional changelog
/// store of type `C`.
pub struct MindPalaceBuilder<C> {
    s3: Option<S3Config>,
    dynamo: Option<DynamoConfig>,
    s3vectors: Option<S3VectorsConfig>,
    bedrock: Option<BedrockConfig>,
    tenancy_enabled: bool,
    changelog: Option<C>,
}

/// Everything the builder collected, once complete.
pub struct BuildPlan<C> {
    pub s3: S3Config,
    pub dynamo: DynamoConfig,
    pub s3vectors: S3VectorsConfig,
    pub bedrock: BedrockConfig,
    pub tenancy_enabled: bool,
    pub changelog: Option<C>,
}

impl<C> MindPalaceBuilder<C> {
    /// Which parts are set: page store, graph store, vector store, model.
    pub closed spec fn parts(&self) -> (bool, bool, bool, bool) {
        (self.s3 is Some, self.dynamo is Some, self.s3vectors is Some, self.bedrock is Some)
    }

    /// The configurations set, in the order of [`MindPalaceBuilder::parts`].
    pub closed spec fn configs(&self) -> (Option<S3Config>, Option<DynamoConfig>, Option<S3VectorsConfig>, Option<BedrockConfig>) {
        (self.s3, self.dynamo, self.s3vectors, self.bedrock)
    }

    /// Whether tenancy is enabled.
    pub closed spec fn tenancy(&self) -> bool {
        self.tenancy_enabled
    }

    /// Whether a changelog store is set.
    pub closed spec fn has_changelog(&self) -> bool {
        self.changelog is Some
    }

    /// A builder with nothing set and tenancy off.
    pub fn new() -> (r: Self)
        ensures
            r.parts() == (false, false, false, false),
            !r.tenancy(),
            !r.has_changelog(),
    {
        MindPalaceBuilder {
            s3: None,
            dynamo: None,
            s3vectors: None,
            bedrock: None,
            tenancy_enabled: false,
            changelog: None,
        }
    }

    /// Sets the page store.
    pub fn s3(self, config: S3Config) -> (r: Self)
        ensures
            r.parts() == (true, self.parts().1, self.parts().2, self.parts().3),
            r.tenancy() == self.tenancy(),
            r.has_changelog() == self.has_changelog(),
    {
        let mut b = self;
        b.s3 = Some(config);
        b
    }

    /// Sets the graph store.
    pub fn dynamo(self, config: DynamoConfig) -> (r: Self)
        ensures
            r.parts() == (self.parts().0, true, self.parts().2, self.parts().3),
            r.tenancy() == self.tenancy(),
            r.has_changelog() == self.has_changelog(),
    {
        let mut b = self;
        b.dynamo = Some(config);
        b
    }

    /// Sets the vector store.
    pub fn s3vectors(self, config: S3VectorsConfig) -> (r: Self)
        ensures
            r.parts() == (self.parts().0, self.parts().1, true, self.parts().3),
            r.tenancy() == self.tenancy(),
            r.has_changelog() == self.has_changelog(),
    {
        let mut b = self;
        b.s3vectors = Some(config);
        b
    }

    /// Sets the embedding model.
    pub fn bedrock(self, config: BedrockConfig) -> (r: Self)
        ensures
            r.parts() == (self.parts().0, self.parts().1, self.parts().2, true),
            r.tenancy() == self.tenancy(),
            r.has_changelog() == self.has_changelog(),
    {
        let mut b = self;
        b.bedrock = Some(config);
        b
    }

    /// Turns tenancy on or off.
    pub fn enable_tenancy(self, enabled: bool) -> (r: Self)
        ensures
            r.parts() == self.parts(),
            r.tenancy() == enabled,
            r.has_changelog() == self.has_changelog(),
    {
        let mut b = self;
        b.tenancy_enabled = enabled;
        b
    }

    /// Sets the changelog store.
    pub fn changelog(self, store: C) -> (r: Self)
        ensures
            r.parts() == self.parts(),
            r.tenancy() == self.tenancy(),
            r.has_changelog(),
    {
        let mut b = self;
        b.changelog = Some(store);
        b
    }

    /// The collected configuration, or a validation error naming the first
    /// missing part (page store, graph store, vector store, model).
    pub fn plan(self) -> (r: Result<BuildPlan<C>, MindPalaceError>)
        ensures
            !self.parts().0 ==> (r matches Err(e) && e@ == ErrorView::Validation("s3 config required"@)),
            self.parts().0 && !self.parts().1 ==> (r matches Err(e) && e@ == ErrorView::Validation(
                "dynamo config required"@,
            )),
            self.parts().0 && self.parts().1 && !self.parts().2 ==> (r matches Err(e) && e@
                == ErrorView::Validation("s3vectors config required"@)),
            self.parts().0 && self.parts().1 && self.parts().2 && !self.parts().3 ==> (r matches Err(
                e,
            ) && e@ == ErrorView::Validation("bedrock config required"@)),
            self.parts() == (true, true, true, true) ==> (r matches Ok(p) && p.tenancy_enabled
                == self.tenancy() && (p.changelog is Some) == self.has_changelog() && (
            Some(p.s3),
            Some(p.dynamo),
            Some(p.s3vectors),
            Some(p.bedrock),
        ) == self.configs()),
    {
        let s3 = match self.s3 {
            Some(c) => c,
            None => return Err(MindPalaceError::Validation(String::from_str("s3 config required"))),
        };
        let dynamo = match self.dynamo {
            Some(c) => c,
            None => return Err(MindPalaceError::Validation(String::from_str("dynamo config required"))),
        };
        let s3vectors = match self.s3vectors {
            Some(c) => c,
            None => return Err(
                MindPalaceError::Validation(String::from_str("s3vectors config required")),
            ),
        };
        let bedrock = match self.bedrock {
            Some(c) => c,
            None => return Err(MindPalaceError::Validation(String::from_str("bedrock config required"))),
        };
        Ok(
            BuildPlan {
                s3,
                dynamo,
                s3vectors,
                bedrock,
                tenancy_enabled: self.tenancy_enabled,
                changelog: self.changelog,
            },
        )
    }
}

impl<C> BuildPlan<C> {
    /// The page store's configuration.
    pub fn page_store_config(&self) -> (r: S3PageStoreConfig)
        ensures
            r.bucket_name@ == self.s3.bucket_name@,
            r.prefix@ == self.s3.prefix@,
    {
        S3PageStoreConfig { bucket_name: self.s3.bucket_name.clone(), prefix: self.s3.prefix.clone() }
    }

    /// The graph store's configuration.
    pub fn graph_store_config(&self) -> (r: DynamoGraphStoreConfig)
        ensures
            r.table_name@ == self.dynamo.table_name@,
    {
        DynamoGraphStoreConfig { table_name: self.dynamo.table_name.clone() }
    }

    /// The vector store's configuration.
    pub fn vector_store_config(&self) -> (r: S3VectorsSearchConfig)
        ensures
            r.bucket_name@ == self.s3vectors.bucket_name@,
            r.index_name@ == self.s3vectors.index_name@,
    {
        S3VectorsSearchConfig {
            bucket_name: self.s3vectors.bucket_name.clone(),
            index_name: self.s3vectors.index_name.clone(),
        }
    }

    /// The embedding adapter's configuration.
    pub fn embedding_config(&self) -> (r: BedrockEmbeddingConfig)
        ensures
            r.model_id@ == self.bedrock.model_id@,
    {
        BedrockEmbeddingConfig { model_id: self.bedrock.model_id.clone() }
    }
}

// ---------------------------------------------------------------------------
// The dreaming job
// ---------------------------------------------------------------------------

/// The dreaming job's configuration.
#[derive(Debug, Clone)]
pub struct DreamConfig {
    pub s3_bucket: String,
    pub s3_prefix: String,
    pub dynamo_table: String,
    pub vectors_bucket: String,
    pub vectors_index: String,
    pub bedrock_model: String,
    pub region: String,
    pub log_bucket: String,
    pub log_prefix: String,
    pub llm_model_id: String,
}

/// The value of a variable as the job reads it: any value, even blank,
/// counts as set (the first entry with that name).
pub open spec fn spec_env_var(env: Seq<(String, String)>, key: Seq<char>) -> Option<Seq<char>> {
    match crate::auth::first_env_index(env, key) {
        Some(i) => Some(env[i].1@),
        None => None,
    }
}

/// The value of a variable, even blank.
pub fn env_var(env: &Vec<(String, String)>, key: &str) -> (r: Option<String>)
    ensures
        crate::auth::ostr(r) == spec_env_var(env@, key@),
{
    let n = env.len();
    for i in 0..n
        invariant
            n == env@.len(),
            forall|j: int| 0 <= j < i ==> (#[trigger] env@[j]).0@ != key@,
    {
        if crate::text::str_eq(env[i].0.as_str(), key) {
            proof {
                crate::auth::lemma_first_env_index_at(env@, key@, i as int);
            }
            return Some(env[i].1.clone());
        }
    }
    proof {
        crate::auth::lemma_first_env_index(env@, key@);
    }
    None
}

fn var_or(env: &Vec<(String, String)>, key: &str, default: &str) -> (r: String)
    ensures
        r@ == or_default(spec_env_var(env@, key@), default@),
{
    match env_var(env, key) {
        Some(v) => v,
        None => copy_str(default),
    }
}

/// The variables the job cannot run without, in the order they are checked.
pub open spec fn required_dream_vars() -> Seq<Seq<char>> {
    seq![
        "MIND_PALACE_S3_BUCKET"@,
        "MIND_PALACE_DYNAMO_TABLE"@,
        "MIND_PALACE_VECTORS_BUCKET"@,
        "MP_LOG_BUCKET"@,
    ]
}

impl DreamConfig {
    /// Reads the job's configuration from an environment snapshot. The
    /// buckets and the table must be set (the error names the first missing
    /// one); the rest have defaults, the model's given by the caller.
    pub fn from_env(env: &Vec<(String, String)>, default_llm_model: &str) -> (r: Result<
        DreamConfig,
        String,
    >)
        ensures
            match r {
                Ok(c) => {
                    &&& spec_env_var(env@, "MIND_PALACE_S3_BUCKET"@) == Some(c.s3_bucket@)
                    &&& spec_env_var(env@, "MIND_PALACE_DYNAMO_TABLE"@) == Some(c.dynamo_table@)
                    &&& spec_env_var(env@, "MIND_PALACE_VECTORS_BUCKET"@) == Some(c.vectors_bucket@)
                    &&& spec_env_var(env@, "MP_LOG_BUCKET"@) == Some(c.log_bucket@)
                    &&& c.s3_prefix@ == or_default(spec_env_var(env@, "MIND_PALACE_S3_PREFIX"@), "v1"@)
                    &&& c.vectors_index@ == or_default(
                        spec_env_var(env@, "MIND_PALACE_VECTORS_INDEX"@),
                        "wiki-pages"@,
                    )
                    &&& c.bedrock_model@ == or_default(
                        spec_env_var(env@, "MIND_PALACE_BEDROCK_MODEL"@),
                        "amazon.titan-embed-text-v2:0"@,
                    )
                    &&& c.region@ == or_default(spec_env_var(env@, "MIND_PALACE_REGION"@), "us-west-2"@)
                    &&& c.log_prefix@ == or_default(spec_env_var(env@, "MP_LOG_PREFIX"@), "sessions"@)
                    &&& c.llm_model_id@ == or_default(
                        spec_env_var(env@, "MP_LLM_MODEL_ID"@),
                        default_llm_model@,
                    )
                },
                Err(m) => exists|k: int|
                    0 <= k < 4 && spec_env_var(env@, #[trigger] required_dream_vars()[k]) is None
                        && m@ == "environment variable not found: "@ + required_dream_vars()[k],
            },
    {
        let s3_bucket = match env_var(env, "MIND_PALACE_S3_BUCKET") {
            Some(v) => v,
            None => {
                assert(required_dream_vars()[0] == "MIND_PALACE_S3_BUCKET"@);
                return Err(crate::text::concat2("environment variable not found: ", "MIND_PALACE_S3_BUCKET"));
            },
        };
        let s3_prefix = var_or(env, "MIND_PALACE_S3_PREFIX", "v1");
        let dynamo_table = match env_var(env, "MIND_PALACE_DYNAMO_TABLE") {
            Some(v) => v,
            None => {
                assert(required_dream_vars()[1] == "MIND_PALACE_DYNAMO_TABLE"@);
                return Err(crate::text::concat2("environment variable not found: ", "MIND_PALACE_DYNAMO_TABLE"));
            },
        };
        let vectors_bucket = match env_var(env, "MIND_PALACE_VECTORS_BUCKET") {
            Some(v) => v,
            None => {
                assert(required_dream_vars()[2] == "MIND_PALACE_VECTORS_BUCKET"@);
                return Err(crate::text::concat2("environment variable not found: ", "MIND_PALACE_VECTORS_BUCKET"));
            },
        };
        let vectors_index = var_or(env, "MIND_PALACE_VECTORS_INDEX", "wiki-pages");
        let bedrock_model = var_or(env, "MIND_PALACE_BEDROCK_MODEL", "amazon.titan-embed-text-v2:0");
        let region = var_or(env, "MIND_PALACE_REGION", "us-west-2");
        let log_bucket = match env_var(env, "MP_LOG_BUCKET") {
            Some(v) => v,
            None => {
                assert(required_dream_vars()[3] == "MP_LOG_BUCKET"@);
                return Err(crate::text::concat2("environment variable not found: ", "MP_LOG_BUCKET"));
            },
        };
        let log_prefix = var_or(env, "MP_LOG_PREFIX", "sessions");
        let llm_model_id = var_or(env, "MP_LLM_MODEL_ID", default_llm_model);
        Ok(
            DreamConfig {
                s3_bucket,
                s3_prefix,
                dynamo_table,
                vectors_bucket,
                vectors_index,
                bedrock_model,
                region,
                log_bucket,
                log_prefix,
                llm_model_id,
            },
        )
    }

    /// The builder settings of the system the job works on: every part in
    /// the job's region.
    pub fn system_configs(&self) -> (r: (S3Config, DynamoConfig, S3VectorsConfig, BedrockConfig))
        ensures
            r.0.bucket_name@ == self.s3_bucket@ && r.0.prefix@ == self.s3_prefix@ && r.0.region@
                == self.region@,
            r.1.table_name@ == self.dynamo_table@ && r.1.region@ == self.region@,
            r.2.bucket_name@ == self.vectors_bucket@ && r.2.index_name@ == self.vectors_index@
                && r.2.region@ == self.region@,
            r.3.model_id@ == self.bedrock_model@ && r.3.region@ == self.region@,
    {
        (
            S3Config {
                bucket_name: self.s3_bucket.clone(),
                region: self.region.clone(),
                prefix: self.s3_prefix.clone(),
            },
            DynamoConfig { table_name: self.dynamo_table.clone(), region: self.region.clone() },
            S3VectorsConfig {
                bucket_name: self.vectors_bucket.clone(),
                index_name: self.vectors_index.clone(),
                region: self.region.clone(),
            },
            BedrockConfig { model_id: self.bedrock_model.clone(), region: self.region.clone() },
        )
    }
}

// ---------------------------------------------------------------------------
// The agent servers
// ---------------------------------------------------------------------------

/// Where the agent servers keep the wiki, read from `MIND_PALACE_*`
/// variables with their defaults.
#[derive(Debug, Clone)]
pub struct ServiceSettings {
    pub region: String,
    pub s3_bucket: String,
    pub s3_prefix: String,
    pub dynamo_table: String,
    pub vectors_bucket: String,
    pub vectors_index: String,
    pub bedrock_model: String,
}

impl ServiceSettings {
    /// Reads the settings from an environment snapshot; every variable has
    /// a default.
    pub fn from_env(env: &Vec<(String, String)>) -> (r: ServiceSettings)
        ensures
            r.region@ == or_default(spec_env_var(env@, "MIND_PALACE_REGION"@), "us-east-1"@),
            r.s3_bucket@ == or_default(spec_env_var(env@, "MIND_PALACE_S3_BUCKET"@), "mind-palace-pages"@),
            r.s3_prefix@ == or_default(spec_env_var(env@, "MIND_PALACE_S3_PREFIX"@), "v1"@),
            r.dynamo_table@ == or_default(spec_env_var(env@, "MIND_PALACE_DYNAMO_TABLE"@), "mind-palace-graph"@),
            r.vectors_bucket@ == or_default(
                spec_env_var(env@, "MIND_PALACE_VECTORS_BUCKET"@),
                "mind-palace-vectors"@,
            ),
            r.vectors_index@ == or_default(spec_env_var(env@, "MIND_PALACE_VECTORS_INDEX"@), "wiki"@),
            r.bedrock_model@ == or_default(
                spec_env_var(env@, "MIND_PALACE_BEDROCK_MODEL"@),
                "amazon.titan-embed-text-v2:0"@,
            ),
    {
        ServiceSettings {
            region: var_or(env, "MIND_PALACE_REGION", "us-east-1"),
            s3_bucket: var_or(env, "MIND_PALACE_S3_BUCKET", "mind-palace-pages"),
            s3_prefix: var_or(env, "MIND_PALACE_S3_PREFIX", "v1"),
            dynamo_table: var_or(env, "MIND_PALACE_DYNAMO_TABLE", "mind-palace-graph"),
            vectors_bucket: var_or(env, "MIND_PALACE_VECTORS_BUCKET", "mind-palace-vectors"),
            vectors_index: var_or(env, "MIND_PALACE_VECTORS_INDEX", "wiki"),
            bedrock_model: var_or(env, "MIND_PALACE_BEDROCK_MODEL", "amazon.titan-embed-text-v2:0"),
        }
    }
}

/// The context of the local agent server: the trusted admin, acting as the
/// user named by `MIND_PALACE_USER_ID` when that is set and not blank.
pub fn build_context_from_env(env: &Vec<(String, String)>) -> (r: TenantContext)
    ensures
        r@.tenant_id is None,
        r@.visible_tenants.len() == 0,
        r@.groups.len() == 0,
        r@.identity == match spec_env_var(env@, "MIND_PALACE_USER_ID"@) {
            Some(u) => if spec_trim(u).len() > 0 {
                IdentityView::User(u)
            } else {
                IdentityView::Global
            },
            None => IdentityView::Global,
        },
{
    let ctx = TenantContext::global();
    match env_var(env, "MIND_PALACE_USER_ID") {
        Some(u) => {
            let t = crate::text::trim_str(u.as_str());
            if t.as_str().is_empty() {
                ctx
            } else {
                ctx.with_user(u.as_str())
            }
        },
        None => ctx,
    }
}

} // verus!
