use vstd::prelude::*;
use vstd::string::StringExecFns;

use crate::errors::EsError;

verus! {

/// Connection information for one cluster: its name, the ordered list of
/// node `host:port` strings, and an optional credential pair.
///
/// Invariant: at least one host, and the credentials either both empty
/// (anonymous access) or both present.
#[derive(Debug, Clone)]
pub struct ClusterConnectionInfo {
    pub cluster_name: String,
    pub hosts: Vec<String>,
    pub es_id: String,
    pub es_pw: String,
}

impl ClusterConnectionInfo {
    /// Anonymous access: both credential fields empty.
    pub open spec fn spec_anonymous(&self) -> bool {
        self.es_id@.len() == 0 && self.es_pw@.len() == 0
    }

    /// The record's invariant: at least one host, and the credentials
    /// either both empty or both present.
    pub open spec fn well_formed(&self) -> bool {
        &&& self.hosts@.len() > 0
        &&& (self.es_id@.len() == 0 <==> self.es_pw@.len() == 0)
    }

    /// Checks the invariant and builds the record; an empty host list or a
    /// half-present credential pair is rejected with `ConfigError`.
    pub fn new(cluster_name: String, hosts: Vec<String>, es_id: String, es_pw: String) -> (r:
        Result<Self, EsError>)
        ensures
            match r {
                Ok(c) => {
                    &&& c.cluster_name == cluster_name
                    &&& c.hosts == hosts
                    &&& c.es_id == es_id
                    &&& c.es_pw == es_pw
                    &&& c.well_formed()
                },
                Err(e) => {
                    &&& e matches EsError::ConfigError(_)
                    &&& !(hosts@.len() > 0 && (es_id@.len() == 0 <==> es_pw@.len() == 0))
                },
            },
    {
        if hosts.len() == 0 {
            return Err(EsError::ConfigError(String::from_str("the host list is empty")));
        }
        if es_id.as_str().is_empty() != es_pw.as_str().is_empty() {
            return Err(
                EsError::ConfigError(
                    String::from_str("credentials must be both present or both absent"),
                ),
            );
        }
        Ok(ClusterConnectionInfo { cluster_name, hosts, es_id, es_pw })
    }

    /// The URL under which node `host` is addressed: `http://host` for
    /// anonymous access, `http://id:pw@host` otherwise.
    pub open spec fn spec_node_url(&self, host: Seq<char>) -> Seq<char> {
        if self.spec_anonymous() {
            "http://"@ + host
        } else {
            "http://"@ + self.es_id@ + ":"@ + self.es_pw@ + "@"@ + host
        }
    }

    /// Builds the URL of the `i`-th host.
    pub fn node_url(&self, i: usize) -> (r: String)
        requires
            i < self.hosts@.len(),
            self.well_formed(),
        ensures
            r@ == self.spec_node_url(self.hosts@[i as int]@),
    {
        let host: &String = &self.hosts[i];
        if self.es_id.as_str().is_empty() && self.es_pw.as_str().is_empty() {
            String::from_str("http://").concat(host.as_str())
        } else {
            let mut url: String = String::from_str("http://");
            url.append(self.es_id.as_str());
            url.append(":");
            url.append(self.es_pw.as_str());
            url.append("@");
            url.append(host.as_str());
            url
        }
    }
}

} // verus!
