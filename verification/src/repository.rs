use vstd::prelude::*;
use vstd::string::StringExecFns;

use crate::cluster_info::ClusterConnectionInfo;
use crate::errors::EsError;
use crate::failover::FailoverExecutor;

verus! {

/// The per-request connect/response timeout, fixed once at client
/// construction: a request that exceeds it counts as a node failure.
pub const REQUEST_TIMEOUT_SECS: u64 = 5;

#[verifier::external_type_specification]
#[verifier::external_body]
pub struct ExElasticsearch(elasticsearch::Elasticsearch);

/// Relies on `elasticsearch::http::Url::parse`,
/// `elasticsearch::http::transport::SingleNodeConnectionPool::new`,
/// `elasticsearch::http::transport::TransportBuilder` (`new`, `timeout`
/// and `build`) and `elasticsearch::Elasticsearch::new`: builds a client
/// handle bound to the single node at `url`, with the given per-request
/// timeout in seconds; `None` when the URL does not parse or the
/// transport cannot be built. Constructing the handle opens no
/// connection, so nothing more is stated of it.
#[verifier::external_body]
fn connect_node(url: &str, timeout_secs: u64) -> (r: Option<elasticsearch::Elasticsearch>) {
    let parsed = elasticsearch::http::Url::parse(url).ok()?;
    let pool = elasticsearch::http::transport::SingleNodeConnectionPool::new(parsed);
    let transport = elasticsearch::http::transport::TransportBuilder::new(pool).timeout(
        std::time::Duration::from_secs(timeout_secs),
    ).build().ok()?;
    Some(elasticsearch::Elasticsearch::new(transport))
}

/// One addressable connection to one cluster node: the node's
/// `host:port` identifier and the live transport handle bound to it.
/// Immutable after construction.
#[derive(Debug)]
pub struct EsClient {
    host: String,
    es_conn: elasticsearch::Elasticsearch,
}

impl EsClient {
    /// The node's host identifier.
    pub closed spec fn spec_host(&self) -> Seq<char> {
        self.host@
    }

    pub fn new(host: String, es_conn: elasticsearch::Elasticsearch) -> (c: Self)
        ensures
            c.spec_host() == host@,
    {
        EsClient { host, es_conn }
    }

    /// The node's host identifier.
    pub fn host(&self) -> (r: &String)
        ensures
            r@ == self.spec_host(),
    {
        &self.host
    }

    /// The transport handle bound to the node. The handle is opaque to
    /// the library; the wire calls made on it stand outside it.
    pub fn es_conn(&self) -> &elasticsearch::Elasticsearch {
        &self.es_conn
    }
}

/// A named cluster behind its node clients: the cluster's name and one
/// client per node, in the connection info's host order. Each of the
/// three domain operations runs through a fresh failover pass over these
/// clients.
#[derive(Debug)]
pub struct EsRepositoryImpl {
    pub cluster_name: String,
    pub es_clients: Vec<EsClient>,
}

impl EsRepositoryImpl {
    /// Builds the repository from checked connection info: one node
    /// client per host, in the info's host order, each bound to the URL
    /// `node_url` renders for its host. A host whose URL does not parse
    /// or whose transport cannot be built is rejected with `ConfigError`.
    pub fn new(info: &ClusterConnectionInfo) -> (r: Result<Self, EsError>)
        requires
            info.well_formed(),
        ensures
            match r {
                Ok(repo) => {
                    &&& repo.cluster_name@ == info.cluster_name@
                    &&& repo.es_clients@.len() == info.hosts@.len()
                    &&& forall|i: int|
                        0 <= i < info.hosts@.len() ==> (#[trigger] repo.es_clients@[i]).spec_host()
                            == info.hosts@[i]@
                },
                Err(e) => e matches EsError::ConfigError(_),
            },
    {
        let mut es_clients: Vec<EsClient> = Vec::new();
        let n: usize = info.hosts.len();
        let mut i: usize = 0;
        while i < n
            invariant
                i <= n,
                n == info.hosts@.len(),
                info.well_formed(),
                es_clients@.len() == i,
                forall|k: int|
                    0 <= k < i ==> (#[trigger] es_clients@[k]).spec_host() == info.hosts@[k]@,
            decreases n - i,
        {
            let url = info.node_url(i);
            match connect_node(url.as_str(), REQUEST_TIMEOUT_SECS) {
                Some(conn) => {
                    let host = info.hosts[i].clone();
                    es_clients.push(EsClient::new(host, conn));
                },
                None => {
                    return Err(
                        EsError::ConfigError(
                            String::from_str("cannot build a client for host ").concat(
                                info.hosts[i].as_str(),
                            ),
                        ),
                    );
                },
            }
            i = i + 1;
        }
        Ok(EsRepositoryImpl { cluster_name: info.cluster_name.clone(), es_clients })
    }

    /// How many nodes the cluster has.
    pub fn node_count(&self) -> (r: usize)
        ensures
            r == self.es_clients@.len(),
    {
        self.es_clients.len()
    }

    /// The client of node `i`.
    pub fn client(&self, i: usize) -> (r: &EsClient)
        requires
            i < self.es_clients@.len(),
        ensures
            *r == self.es_clients@[i as int],
    {
        &self.es_clients[i]
    }

    /// Starts a fresh failover pass over this cluster's nodes; node
    /// failover state is not shared across operations.
    pub fn start_failover(&self) -> (ex: FailoverExecutor)
        ensures
            ex.wf(),
            ex.node_count() == self.es_clients@.len(),
            ex.attempts_made() == 0,
            ex.last_failure() is None,
    {
        FailoverExecutor::new(self.es_clients.len())
    }

    /// The cluster's name.
    pub fn cluster_name(&self) -> (r: &String)
        ensures
            r == &self.cluster_name,
    {
        &self.cluster_name
    }

    /// The node clients, in the connection info's host order.
    pub fn es_clients(&self) -> (r: &Vec<EsClient>)
        ensures
            r == &self.es_clients,
    {
        &self.es_clients
    }
}

} // verus!
