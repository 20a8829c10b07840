use metastable::env::{ApiServerEnv, EnvVars, GraphEnv, MongoDbEnv, PostgresDbEnv};

#[test]
fn api_server_values_by_name() {
    let env = ApiServerEnv {
        secret_salt: "salt".to_string(),
        fish_audio_api_key: "fish".to_string(),
        hasura_graphql_url: "url".to_string(),
        hasura_graphql_admin_secret: "admin".to_string(),
        otp_secret_key: "otp".to_string(),
        maileroo_api_key: "mail".to_string(),
    };
    assert_eq!(env.get_env_var("SECRET_SALT"), "salt");
    assert_eq!(env.get_env_var("FISH_AUDIO_API_KEY"), "fish");
    assert_eq!(env.get_env_var("HASURA_GRAPHQL_URL"), "url");
    assert_eq!(env.get_env_var("HASURA_GRAPHQL_ADMIN_SECRET"), "admin");
    assert_eq!(env.get_env_var("OTP_SECRET_KEY"), "otp");
    assert_eq!(env.get_env_var("MAILEROO_API_KEY"), "mail");
}

#[test]
fn database_and_graph_values_by_name() {
    let pg = PostgresDbEnv { postgres_uri: "pg".to_string(), pgvector_uri: "vec".to_string() };
    assert_eq!(pg.get_env_var("DATABASE_URL"), "pg");
    assert_eq!(pg.get_env_var("PGVECTOR_URI"), "vec");
    let mongo = MongoDbEnv { mongodb_uri: "m".to_string() };
    assert_eq!(mongo.get_env_var("MONGODB_URI"), "m");
    let g = GraphEnv {
        uri: "bolt".to_string(),
        user: "neo".to_string(),
        password: "pw".to_string(),
        openai_api_key: "key".to_string(),
        openai_base_url: "base".to_string(),
        openai_embedding_model: "model".to_string(),
    };
    assert_eq!(g.get_env_var("GRAPH_URI"), "bolt");
    assert_eq!(g.get_env_var("GRAPH_USER"), "neo");
    assert_eq!(g.get_env_var("GRAPH_PASSWORD"), "pw");
    assert_eq!(g.get_env_var("OPENAI_API_KEY"), "key");
    assert_eq!(g.get_env_var("OPENAI_BASE_URL"), "base");
    assert_eq!(g.get_env_var("OPENAI_EMBEDDING_MODEL"), "model");
    // The names the embedding settings are loaded from serve them too.
    assert_eq!(g.get_env_var("EMBEDDING_API_KEY"), "key");
    assert_eq!(g.get_env_var("EMBEDDING_BASE_URL"), "base");
    assert_eq!(g.get_env_var("EMBEDDING_EMBEDDING_MODEL"), "model");
}
