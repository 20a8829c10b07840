//! Configuration read from the environment, and lookup of a value by its
//! variable name. Reading the environment itself is the program's job.
use vstd::prelude::*;
use crate::text::str_eq;

verus! {

broadcast use vstd::string::group_string_axioms;

/// Configuration whose values can be looked up by variable name.
pub trait EnvVars {
    /// The variable names the configuration answers for.
    spec fn has_var(&self, key: Seq<char>) -> bool;

    /// The value of a variable.
    spec fn var_value(&self, key: Seq<char>) -> Seq<char>;

    /// The value of the variable `key`.
    fn get_env_var(&self, key: &str) -> (r: String)
        requires
            self.has_var(key@),
        ensures
            r@ == self.var_value(key@),
    ;
}

/// The API server's secrets and endpoints.
pub struct ApiServerEnv {
    pub secret_salt: String,
    pub fish_audio_api_key: String,
    pub hasura_graphql_url: String,
    pub hasura_graphql_admin_secret: String,
    pub otp_secret_key: String,
    pub maileroo_api_key: String,
}

impl EnvVars for ApiServerEnv {
    open spec fn has_var(&self, key: Seq<char>) -> bool {
        ||| key == "SECRET_SALT"@
        ||| key == "FISH_AUDIO_API_KEY"@
        ||| key == "HASURA_GRAPHQL_URL"@
        ||| key == "HASURA_GRAPHQL_ADMIN_SECRET"@
        ||| key == "OTP_SECRET_KEY"@
        ||| key == "MAILEROO_API_KEY"@
    }

    open spec fn var_value(&self, key: Seq<char>) -> Seq<char> {
        if key == "SECRET_SALT"@ {
            self.secret_salt@
        } else if key == "FISH_AUDIO_API_KEY"@ {
            self.fish_audio_api_key@
        } else if key == "HASURA_GRAPHQL_URL"@ {
            self.hasura_graphql_url@
        } else if key == "HASURA_GRAPHQL_ADMIN_SECRET"@ {
            self.hasura_graphql_admin_secret@
        } else if key == "OTP_SECRET_KEY"@ {
            self.otp_secret_key@
        } else {
            self.maileroo_api_key@
        }
    }

    fn get_env_var(&self, key: &str) -> (r: String) {
        if str_eq(key, "SECRET_SALT") {
            self.secret_salt.clone()
        } else if str_eq(key, "FISH_AUDIO_API_KEY") {
            self.fish_audio_api_key.clone()
        } else if str_eq(key, "HASURA_GRAPHQL_URL") {
            self.hasura_graphql_url.clone()
        } else if str_eq(key, "HASURA_GRAPHQL_ADMIN_SECRET") {
            self.hasura_graphql_admin_secret.clone()
        } else if str_eq(key, "OTP_SECRET_KEY") {
            self.otp_secret_key.clone()
        } else {
            self.maileroo_api_key.clone()
        }
    }
}

/// The document database's connection string.
pub struct MongoDbEnv {
    pub mongodb_uri: String,
}

impl EnvVars for MongoDbEnv {
    open spec fn has_var(&self, key: Seq<char>) -> bool {
        key == "MONGODB_URI"@
    }

    open spec fn var_value(&self, key: Seq<char>) -> Seq<char> {
        self.mongodb_uri@
    }

    fn get_env_var(&self, key: &str) -> (r: String) {
        self.mongodb_uri.clone()
    }
}

/// The relational and vector databases' connection strings.
pub struct PostgresDbEnv {
    pub postgres_uri: String,
    pub pgvector_uri: String,
}

impl EnvVars for PostgresDbEnv {
    open spec fn has_var(&self, key: Seq<char>) -> bool {
        key == "DATABASE_URL"@ || key == "PGVECTOR_URI"@
    }

    open spec fn var_value(&self, key: Seq<char>) -> Seq<char> {
        if key == "DATABASE_URL"@ {
            self.postgres_uri@
        } else {
            self.pgvector_uri@
        }
    }

    fn get_env_var(&self, key: &str) -> (r: String) {
        if str_eq(key, "DATABASE_URL") {
            self.postgres_uri.clone()
        } else {
            self.pgvector_uri.clone()
        }
    }
}

/// The graph database's credentials and the embedding service's settings.
pub struct GraphEnv {
    pub uri: String,
    pub user: String,
    pub password: String,
    pub openai_api_key: String,
    pub openai_base_url: String,
    pub openai_embedding_model: String,
}

impl EnvVars for GraphEnv {
    open spec fn has_var(&self, key: Seq<char>) -> bool {
        ||| key == "GRAPH_URI"@
        ||| key == "GRAPH_USER"@
        ||| key == "GRAPH_PASSWORD"@
        ||| key == "EMBEDDING_API_KEY"@ || key == "OPENAI_API_KEY"@
        ||| key == "EMBEDDING_BASE_URL"@ || key == "OPENAI_BASE_URL"@
        ||| key == "EMBEDDING_EMBEDDING_MODEL"@ || key == "OPENAI_EMBEDDING_MODEL"@
    }

    open spec fn var_value(&self, key: Seq<char>) -> Seq<char> {
        if key == "GRAPH_URI"@ {
            self.uri@
        } else if key == "GRAPH_USER"@ {
            self.user@
        } else if key == "GRAPH_PASSWORD"@ {
            self.password@
        } else if key == "EMBEDDING_API_KEY"@ || key == "OPENAI_API_KEY"@ {
            self.openai_api_key@
        } else if key == "EMBEDDING_BASE_URL"@ || key == "OPENAI_BASE_URL"@ {
            self.openai_base_url@
        } else {
            self.openai_embedding_model@
        }
    }

    fn get_env_var(&self, key: &str) -> (r: String) {
        if str_eq(key, "GRAPH_URI") {
            self.uri.clone()
        } else if str_eq(key, "GRAPH_USER") {
            self.user.clone()
        } else if str_eq(key, "GRAPH_PASSWORD") {
            self.password.clone()
        } else if str_eq(key, "EMBEDDING_API_KEY") || str_eq(key, "OPENAI_API_KEY") {
            self.openai_api_key.clone()
        } else if str_eq(key, "EMBEDDING_BASE_URL") || str_eq(key, "OPENAI_BASE_URL") {
            self.openai_base_url.clone()
        } else {
            self.openai_embedding_model.clone()
        }
    }
}

/// A client of an outside service, set up once the environment it needs is
/// present: its name, the client it holds, whether its environment is set,
/// and the client itself.
pub trait ModuleClient: Sized {
    /// The service's name.
    const NAME: &'static str;

    /// The client of the service.
    type Client;

    /// Whether every environment variable the client needs is set.
    fn validate_env() -> bool;

    /// The connected client.
    fn get_client(&self) -> &Self::Client;
}

} // verus!
