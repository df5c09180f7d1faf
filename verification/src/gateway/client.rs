//! One client for a cluster and for databases in this process.
use vstd::prelude::*;

use crate::client::config::ClientTarget;
use crate::client::session::SqlGatewayClient;
use crate::gateway::engine::DatabaseEngine;

verus! {

/// The generation of databases in this process.
pub const LOCAL_GENERATION: u64 = 1;

/// Where a client runs SQL.
#[derive(Debug)]
pub enum ClientBackend {
    /// By the nodes of a cluster.
    Remote(Box<SqlGatewayClient>),
    /// In this process.
    Local(DatabaseEngine),
}

/// A client that runs SQL by the nodes of a cluster or in this process.
#[derive(Debug)]
pub struct Client {
    backend: ClientBackend,
}

impl Client {
    /// Where this client runs SQL.
    pub closed spec fn place(self) -> ClientBackend {
        self.backend
    }

    /// A client for this target.
    pub fn new(target: ClientTarget) -> (r: Client)
        ensures
            match target {
                ClientTarget::Remote { config } => r.place() matches ClientBackend::Remote(c)
                    && c.settings() == config && c.endpoint() is None && !c.is_up(),
                ClientTarget::Local { data_dir } => r.place() matches ClientBackend::Local(e)
                    && e.root() == data_dir@,
            },
    {
        match target {
            ClientTarget::Remote { config } => Client::from_remote(SqlGatewayClient::new(config)),
            ClientTarget::Local { data_dir } => Client::from_local_dir(data_dir.as_str()),
        }
    }

    /// A client that runs SQL by the nodes of a cluster.
    pub fn from_remote(remote: SqlGatewayClient) -> (r: Client)
        ensures
            r.place() matches ClientBackend::Remote(c) && *c == remote,
    {
        Client { backend: ClientBackend::Remote(Box::new(remote)) }
    }

    /// A client that runs SQL on the databases of a directory.
    pub fn from_local_dir(data_dir: &str) -> (r: Client)
        ensures
            r.place() matches ClientBackend::Local(e) && e.root() == data_dir@,
    {
        Client { backend: ClientBackend::Local(DatabaseEngine::new(data_dir)) }
    }

    /// Whether SQL is run in this process.
    pub fn is_local(&self) -> (r: bool)
        ensures
            r == (self.place() is Local),
    {
        match &self.backend {
            ClientBackend::Local(_) => true,
            ClientBackend::Remote(_) => false,
        }
    }

    /// Whether SQL is run by the nodes of a cluster.
    pub fn is_remote(&self) -> (r: bool)
        ensures
            r == (self.place() is Remote),
    {
        match &self.backend {
            ClientBackend::Local(_) => false,
            ClientBackend::Remote(_) => true,
        }
    }

    /// Where this client runs SQL.
    pub fn backend(&self) -> (r: &ClientBackend)
        ensures
            *r == self.place(),
    {
        &self.backend
    }

    /// Where this client runs SQL, given up for it.
    pub fn into_backend(self) -> (r: ClientBackend)
        ensures
            r == self.place(),
    {
        self.backend
    }
}

} // verus!
