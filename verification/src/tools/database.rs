//! Database tool settings: vector databases, SQL engines and data
//! warehouses.
//!
//! Each struct holds the plain configuration a tool runs with; the
//! side-effecting call it configures is made by the embedding program.

use vstd::prelude::*;
use vstd::string::StringExecFns;

verus! {

/// Settings for the Qdrant Vector Search Tool integration. The operation itself
/// talks to an outside service and runs outside the verified core.
#[derive(Debug)]
pub struct QdrantVectorSearchTool {
    pub qdrant_url: Option<String>,
    pub api_key: Option<String>,
    pub collection_name: String,
    pub top_k: usize,
}

impl QdrantVectorSearchTool {
    /// Create the settings with their defaults.
    pub fn new(collection_name: String) -> (r: Self)
        ensures
            r.qdrant_url is None,
            r.api_key is None,
            r.collection_name == collection_name,
            r.top_k == 5,
    {
        QdrantVectorSearchTool {
            qdrant_url: Option::None,
            api_key: Option::None,
            collection_name: collection_name,
            top_k: 5,
        }
    }

    /// Set the qdrant url.
    pub fn with_qdrant_url(self, url: String) -> (r: Self)
        ensures
            r == (Self { qdrant_url: Option::Some(url), ..self }),
    {
        Self { qdrant_url: Option::Some(url), ..self }
    }

    /// Set the api key.
    pub fn with_api_key(self, key: String) -> (r: Self)
        ensures
            r == (Self { api_key: Option::Some(key), ..self }),
    {
        Self { api_key: Option::Some(key), ..self }
    }

    /// Set the top k.
    pub fn with_top_k(self, k: usize) -> (r: Self)
        ensures
            r == (Self { top_k: k, ..self }),
    {
        Self { top_k: k, ..self }
    }
}

/// Settings for the Mongo Db Vector Search Tool integration. The operation itself
/// talks to an outside service and runs outside the verified core.
#[derive(Debug)]
pub struct MongoDbVectorSearchTool {
    pub connection_string: Option<String>,
    pub database: String,
    pub collection: String,
    pub index_name: String,
    pub top_k: usize,
}

impl MongoDbVectorSearchTool {
    /// Create the settings with their defaults.
    pub fn new(database: String, collection: String) -> (r: Self)
        ensures
            r.connection_string is None,
            r.database == database,
            r.collection == collection,
            r.index_name@ == "vector_index"@,
            r.top_k == 5,
    {
        MongoDbVectorSearchTool {
            connection_string: Option::None,
            database: database,
            collection: collection,
            index_name: String::from_str("vector_index"),
            top_k: 5,
        }
    }
    /// Set the connection string.
    pub fn with_connection_string(self, conn: String) -> (r: Self)
        ensures
            r == (Self { connection_string: Option::Some(conn), ..self }),
    {
        Self { connection_string: Option::Some(conn), ..self }
    }

    /// Set the index name.
    pub fn with_index_name(self, name: String) -> (r: Self)
        ensures
            r == (Self { index_name: name, ..self }),
    {
        Self { index_name: name, ..self }
    }

    /// Set the top k.
    pub fn with_top_k(self, k: usize) -> (r: Self)
        ensures
            r == (Self { top_k: k, ..self }),
    {
        Self { top_k: k, ..self }
    }

}

/// Settings for the Weaviate Vector Search Tool integration. The operation itself
/// talks to an outside service and runs outside the verified core.
#[derive(Debug)]
pub struct WeaviateVectorSearchTool {
    pub weaviate_url: Option<String>,
    pub api_key: Option<String>,
    pub class_name: String,
    pub top_k: usize,
}

impl WeaviateVectorSearchTool {
    /// Create the settings with their defaults.
    pub fn new(class_name: String) -> (r: Self)
        ensures
            r.weaviate_url is None,
            r.api_key is None,
            r.class_name == class_name,
            r.top_k == 5,
    {
        WeaviateVectorSearchTool {
            weaviate_url: Option::None,
            api_key: Option::None,
            class_name: class_name,
            top_k: 5,
        }
    }

    /// Set the weaviate url.
    pub fn with_weaviate_url(self, url: String) -> (r: Self)
        ensures
            r == (Self { weaviate_url: Option::Some(url), ..self }),
    {
        Self { weaviate_url: Option::Some(url), ..self }
    }

    /// Set the api key.
    pub fn with_api_key(self, key: String) -> (r: Self)
        ensures
            r == (Self { api_key: Option::Some(key), ..self }),
    {
        Self { api_key: Option::Some(key), ..self }
    }

    /// Set the top k.
    pub fn with_top_k(self, k: usize) -> (r: Self)
        ensures
            r == (Self { top_k: k, ..self }),
    {
        Self { top_k: k, ..self }
    }
}

/// Settings for the Couchbase Fts Vector Search Tool integration. The operation itself
/// talks to an outside service and runs outside the verified core.
#[derive(Debug)]
pub struct CouchbaseFtsVectorSearchTool {
    pub connection_string: Option<String>,
    pub bucket: String,
    pub scope: Option<String>,
    pub index_name: String,
    pub top_k: usize,
}

impl CouchbaseFtsVectorSearchTool {
    /// Create the settings with their defaults.
    pub fn new(bucket: String, index_name: String) -> (r: Self)
        ensures
            r.connection_string is None,
            r.bucket == bucket,
            r.scope is None,
            r.index_name == index_name,
            r.top_k == 5,
    {
        CouchbaseFtsVectorSearchTool {
            connection_string: Option::None,
            bucket: bucket,
            scope: Option::None,
            index_name: index_name,
            top_k: 5,
        }
    }
    /// Set the connection string.
    pub fn with_connection_string(self, conn: String) -> (r: Self)
        ensures
            r == (Self { connection_string: Option::Some(conn), ..self }),
    {
        Self { connection_string: Option::Some(conn), ..self }
    }

    /// Set the scope.
    pub fn with_scope(self, scope: String) -> (r: Self)
        ensures
            r == (Self { scope: Option::Some(scope), ..self }),
    {
        Self { scope: Option::Some(scope), ..self }
    }

    /// Set the top k.
    pub fn with_top_k(self, k: usize) -> (r: Self)
        ensures
            r == (Self { top_k: k, ..self }),
    {
        Self { top_k: k, ..self }
    }

}

/// Settings for the Single Store Search Tool integration. The operation itself
/// talks to an outside service and runs outside the verified core.
#[derive(Debug)]
pub struct SingleStoreSearchTool {
    pub connection_string: Option<String>,
    pub database: Option<String>,
    pub table: Option<String>,
    pub top_k: usize,
}

impl SingleStoreSearchTool {
    /// Create the settings with their defaults.
    pub fn new() -> (r: Self)
        ensures
            r.connection_string is None,
            r.database is None,
            r.table is None,
            r.top_k == 5,
    {
        SingleStoreSearchTool {
            connection_string: Option::None,
            database: Option::None,
            table: Option::None,
            top_k: 5,
        }
    }

    /// Set the connection string.
    pub fn with_connection_string(self, conn: String) -> (r: Self)
        ensures
            r == (Self { connection_string: Option::Some(conn), ..self }),
    {
        Self { connection_string: Option::Some(conn), ..self }
    }

    /// Set the database.
    pub fn with_database(self, db: String) -> (r: Self)
        ensures
            r == (Self { database: Option::Some(db), ..self }),
    {
        Self { database: Option::Some(db), ..self }
    }

    /// Set the table.
    pub fn with_table(self, table: String) -> (r: Self)
        ensures
            r == (Self { table: Option::Some(table), ..self }),
    {
        Self { table: Option::Some(table), ..self }
    }

    /// Set the top k.
    pub fn with_top_k(self, k: usize) -> (r: Self)
        ensures
            r == (Self { top_k: k, ..self }),
    {
        Self { top_k: k, ..self }
    }
}

impl Default for SingleStoreSearchTool {
    fn default() -> (r: Self)
        ensures
            r.connection_string is None,
            r.database is None,
            r.table is None,
            r.top_k == 5,
    {
        Self::new()
    }
}

/// Settings for the Snowflake Search Tool integration. The operation itself
/// talks to an outside service and runs outside the verified core.
#[derive(Debug)]
pub struct SnowflakeSearchTool {
    pub account: Option<String>,
    pub username: Option<String>,
    pub password: Option<String>,
    pub warehouse: Option<String>,
    pub database: Option<String>,
    pub schema: Option<String>,
}

impl SnowflakeSearchTool {
    /// Create the settings with their defaults.
    pub fn new() -> (r: Self)
        ensures
            r.account is None,
            r.username is None,
            r.password is None,
            r.warehouse is None,
            r.database is None,
            r.schema is None,
    {
        SnowflakeSearchTool {
            account: Option::None,
            username: Option::None,
            password: Option::None,
            warehouse: Option::None,
            database: Option::None,
            schema: Option::None,
        }
    }

    /// Set the account.
    pub fn with_account(self, account: String) -> (r: Self)
        ensures
            r == (Self { account: Option::Some(account), ..self }),
    {
        Self { account: Option::Some(account), ..self }
    }

    /// Set the username.
    pub fn with_username(self, username: String) -> (r: Self)
        ensures
            r == (Self { username: Option::Some(username), ..self }),
    {
        Self { username: Option::Some(username), ..self }
    }

    /// Set the password.
    pub fn with_password(self, password: String) -> (r: Self)
        ensures
            r == (Self { password: Option::Some(password), ..self }),
    {
        Self { password: Option::Some(password), ..self }
    }

    /// Set the warehouse.
    pub fn with_warehouse(self, warehouse: String) -> (r: Self)
        ensures
            r == (Self { warehouse: Option::Some(warehouse), ..self }),
    {
        Self { warehouse: Option::Some(warehouse), ..self }
    }

    /// Set the database.
    pub fn with_database(self, database: String) -> (r: Self)
        ensures
            r == (Self { database: Option::Some(database), ..self }),
    {
        Self { database: Option::Some(database), ..self }
    }

    /// Set the schema.
    pub fn with_schema(self, schema: String) -> (r: Self)
        ensures
            r == (Self { schema: Option::Some(schema), ..self }),
    {
        Self { schema: Option::Some(schema), ..self }
    }
}

impl Default for SnowflakeSearchTool {
    fn default() -> (r: Self)
        ensures
            r.account is None,
            r.username is None,
            r.password is None,
            r.warehouse is None,
            r.database is None,
            r.schema is None,
    {
        Self::new()
    }
}

/// Settings for the Databricks Query Tool integration. The operation itself
/// talks to an outside service and runs outside the verified core.
#[derive(Debug)]
pub struct DatabricksQueryTool {
    pub workspace_url: Option<String>,
    pub access_token: Option<String>,
    pub warehouse_id: Option<String>,
}

impl DatabricksQueryTool {
    /// Create the settings with their defaults.
    pub fn new() -> (r: Self)
        ensures
            r.workspace_url is None,
            r.access_token is None,
            r.warehouse_id is None,
    {
        DatabricksQueryTool {
            workspace_url: Option::None,
            access_token: Option::None,
            warehouse_id: Option::None,
        }
    }

    /// Set the workspace url.
    pub fn with_workspace_url(self, url: String) -> (r: Self)
        ensures
            r == (Self { workspace_url: Option::Some(url), ..self }),
    {
        Self { workspace_url: Option::Some(url), ..self }
    }

    /// Set the access token.
    pub fn with_access_token(self, token: String) -> (r: Self)
        ensures
            r == (Self { access_token: Option::Some(token), ..self }),
    {
        Self { access_token: Option::Some(token), ..self }
    }

    /// Set the warehouse id.
    pub fn with_warehouse_id(self, id: String) -> (r: Self)
        ensures
            r == (Self { warehouse_id: Option::Some(id), ..self }),
    {
        Self { warehouse_id: Option::Some(id), ..self }
    }
}

impl Default for DatabricksQueryTool {
    fn default() -> (r: Self)
        ensures
            r.workspace_url is None,
            r.access_token is None,
            r.warehouse_id is None,
    {
        Self::new()
    }
}

/// Settings for the Nl2 Sql Tool integration. The operation itself
/// talks to an outside service and runs outside the verified core.
#[derive(Debug)]
pub struct Nl2SqlTool {
    pub connection_string: Option<String>,
    pub dialect: String,
    pub tables: Vec<String>,
}

impl Nl2SqlTool {
    /// Create the settings with their defaults.
    pub fn new() -> (r: Self)
        ensures
            r.connection_string is None,
            r.dialect@ == "postgresql"@,
            r.tables.deep_view() =~= Seq::<Seq<char>>::empty(),
    {
        Nl2SqlTool {
            connection_string: Option::None,
            dialect: String::from_str("postgresql"),
            tables: Vec::new(),
        }
    }

    /// Set the connection string.
    pub fn with_connection_string(self, conn: String) -> (r: Self)
        ensures
            r == (Self { connection_string: Option::Some(conn), ..self }),
    {
        Self { connection_string: Option::Some(conn), ..self }
    }

    /// Set the dialect.
    pub fn with_dialect(self, dialect: String) -> (r: Self)
        ensures
            r == (Self { dialect: dialect, ..self }),
    {
        Self { dialect: dialect, ..self }
    }

    /// Set the tables.
    pub fn with_tables(self, tables: Vec<String>) -> (r: Self)
        ensures
            r == (Self { tables: tables, ..self }),
    {
        Self { tables: tables, ..self }
    }
}

impl Default for Nl2SqlTool {
    fn default() -> (r: Self)
        ensures
            r.connection_string is None,
            r.dialect@ == "postgresql"@,
            r.tables.deep_view() =~= Seq::<Seq<char>>::empty(),
    {
        Self::new()
    }
}

} // verus!
