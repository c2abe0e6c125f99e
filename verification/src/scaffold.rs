//! The files that the tool writes into a project to set up containers,
//! pipelines, logging, API documents, migrations and tests: their names and
//! their content.

use vstd::prelude::*;
use vstd::string::*;
use crate::error::ForgeKitError;

verus! {

/// Container support
#[derive(Debug, Clone)]
pub struct DockerBuilder;

/// Pipeline definitions for build services
#[derive(Debug, Clone)]
pub struct CICDGenerator;

/// Logging and monitoring setup
#[derive(Debug, Clone)]
pub struct MonitoringSetup;

/// API description documents
#[derive(Debug, Clone)]
pub struct OpenAPIGenerator;

/// Database migrations
#[derive(Debug, Clone)]
pub struct MigrationManager;

/// What a run of the migrations did.
#[derive(Debug, Clone)]
pub struct MigrationReport {
    /// The migrations applied, in order
    pub applied: Vec<String>,
    /// How long the run took, in whole seconds
    pub duration_secs: u64,
}

/// The content of the `Dockerfile`.
pub open spec fn dockerfile_text() -> Seq<char> {
    "FROM rust:latest\nWORKDIR /app\nCOPY . .\nRUN cargo build --release\nCMD [\"./target/release/app\"]\n"@
}

/// The content of `docker-compose.yml`.
pub open spec fn compose_text() -> Seq<char> {
    "version: '3'\nservices:\n  app:\n    build: .\n    ports:\n      - \"8080:8080\"\n"@
}

/// The content of the workflow file `.github/workflows/build.yml`.
pub open spec fn github_actions_text() -> Seq<char> {
    "name: Build and Test\non: [push, pull_request]\njobs:\n  build:\n    runs-on: ubuntu-latest\n    steps:\n      - uses: actions/checkout@v2\n      - uses: actions-rs/toolchain@v1\n        with:\n          toolchain: stable\n      - run: cargo build --verbose\n      - run: cargo test --verbose\n"@
}

/// The content of `.gitlab-ci.yml`.
pub open spec fn gitlab_ci_text() -> Seq<char> {
    "stages:\n  - build\n  - test\n\nbuild:\n  stage: build\n  script:\n    - cargo build --verbose\n\ntest:\n  stage: test\n  script:\n    - cargo test --verbose\n"@
}

/// The content of the `Jenkinsfile`.
pub open spec fn jenkins_text() -> Seq<char> {
    "pipeline {\n    agent any\n    stages {\n        stage('Build') {\n            steps {\n                sh 'cargo build --verbose'\n            }\n        }\n        stage('Test') {\n            steps {\n                sh 'cargo test --verbose'\n            }\n        }\n    }\n}\n"@
}

/// The content of `logging.toml`.
pub open spec fn logging_config_text() -> Seq<char> {
    "[logging]\nlevel = \"info\"\nformat = \"json\"\n"@
}

/// The API description of a project that declares no paths yet.
pub open spec fn openapi_spec_text() -> Seq<char> {
    "{\n  \"openapi\": \"3.0.0\",\n  \"info\": {\n    \"title\": \"API\",\n    \"version\": \"1.0.0\"\n  },\n  \"paths\": {}\n}\n"@
}

/// The content of `api-docs/index.html`.
pub open spec fn api_docs_text() -> Seq<char> {
    "<!DOCTYPE html>\n<html>\n<head>\n    <title>API Documentation</title>\n</head>\n<body>\n    <h1>API Documentation</h1>\n</body>\n</html>\n"@
}

impl DockerBuilder {
    /// The content of the `Dockerfile` of a project.
    pub fn generate_dockerfile() -> (r: &'static str)
        ensures
            r@ == dockerfile_text(),
    {
        "FROM rust:latest\nWORKDIR /app\nCOPY . .\nRUN cargo build --release\nCMD [\"./target/release/app\"]\n"
    }

    /// The name of the image built from a project. `has_dockerfile` says
    /// whether the project directory holds a `Dockerfile`.
    pub fn build_image(has_dockerfile: bool) -> (r: Result<String, ForgeKitError>)
        ensures
            has_dockerfile ==> r is Ok && r->Ok_0@ == "image:latest"@,
            !has_dockerfile ==> r is Err && r->Err_0 is ProjectNotFound && r->Err_0.detail()
                == "Dockerfile not found"@,
    {
        if !has_dockerfile {
            return Err(ForgeKitError::ProjectNotFound(String::from_str("Dockerfile not found")));
        }
        Ok(String::from_str("image:latest"))
    }

    /// The content of `docker-compose.yml` of a project.
    pub fn generate_compose() -> (r: &'static str)
        ensures
            r@ == compose_text(),
    {
        "version: '3'\nservices:\n  app:\n    build: .\n    ports:\n      - \"8080:8080\"\n"
    }
}

impl CICDGenerator {
    /// The content of the workflow file `.github/workflows/build.yml`.
    pub fn generate_github_actions() -> (r: &'static str)
        ensures
            r@ == github_actions_text(),
    {
        "name: Build and Test\non: [push, pull_request]\njobs:\n  build:\n    runs-on: ubuntu-latest\n    steps:\n      - uses: actions/checkout@v2\n      - uses: actions-rs/toolchain@v1\n        with:\n          toolchain: stable\n      - run: cargo build --verbose\n      - run: cargo test --verbose\n"
    }

    /// The content of `.gitlab-ci.yml`.
    pub fn generate_gitlab_ci() -> (r: &'static str)
        ensures
            r@ == gitlab_ci_text(),
    {
        "stages:\n  - build\n  - test\n\nbuild:\n  stage: build\n  script:\n    - cargo build --verbose\n\ntest:\n  stage: test\n  script:\n    - cargo test --verbose\n"
    }

    /// The content of the `Jenkinsfile`.
    pub fn generate_jenkins() -> (r: &'static str)
        ensures
            r@ == jenkins_text(),
    {
        "pipeline {\n    agent any\n    stages {\n        stage('Build') {\n            steps {\n                sh 'cargo build --verbose'\n            }\n        }\n        stage('Test') {\n            steps {\n                sh 'cargo test --verbose'\n            }\n        }\n    }\n}\n"
    }
}

impl MonitoringSetup {
    /// The content of `logging.toml`.
    pub fn generate_logging_config() -> (r: &'static str)
        ensures
            r@ == logging_config_text(),
    {
        "[logging]\nlevel = \"info\"\nformat = \"json\"\n"
    }
}

impl OpenAPIGenerator {
    /// The API description of a project. `has_manifest` says whether the
    /// project directory holds a `Cargo.toml`.
    pub fn generate_spec(has_manifest: bool) -> (r: Result<String, ForgeKitError>)
        ensures
            has_manifest ==> r is Ok && r->Ok_0@ == openapi_spec_text(),
            !has_manifest ==> r is Err && r->Err_0 is ProjectNotFound && r->Err_0.detail()
                == "Cargo.toml not found"@,
    {
        if !has_manifest {
            return Err(ForgeKitError::ProjectNotFound(String::from_str("Cargo.toml not found")));
        }
        Ok(
            String::from_str(
                "{\n  \"openapi\": \"3.0.0\",\n  \"info\": {\n    \"title\": \"API\",\n    \"version\": \"1.0.0\"\n  },\n  \"paths\": {}\n}\n",
            ),
        )
    }

    /// The content of `api-docs/index.html`.
    pub fn generate_docs() -> (r: &'static str)
        ensures
            r@ == api_docs_text(),
    {
        "<!DOCTYPE html>\n<html>\n<head>\n    <title>API Documentation</title>\n</head>\n<body>\n    <h1>API Documentation</h1>\n</body>\n</html>\n"
    }
}

impl MigrationManager {
    /// The file name of a new migration: the time stamp of its creation, an
    /// underscore, its name, and the ending `.sql`.
    pub fn create_migration(timestamp: &str, name: &str) -> (r: String)
        ensures
            r@ == timestamp@ + "_"@ + name@ + ".sql"@,
    {
        let mut out = String::from_str(timestamp);
        out.append("_");
        out.append(name);
        out.append(".sql");
        out
    }

    /// The report of a run of the migrations. No migration format is
    /// defined, so a run applies none.
    pub fn run_migrations() -> (r: Result<MigrationReport, ForgeKitError>)
        ensures
            r is Ok,
            r->Ok_0.applied@.len() == 0,
            r->Ok_0.duration_secs == 0,
    {
        Ok(MigrationReport { applied: Vec::new(), duration_secs: 0 })
    }
}

} // verus!
