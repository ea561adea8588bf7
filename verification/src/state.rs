//! The connector state: one capability catalog per connected backend.
//!
//! The state is built once during initialization and then shared
//! read-only across requests; every schema synthesis and every routing
//! decision is a pure function of it.  Backend identifiers key the state:
//! adding a client under an identifier that is already present replaces
//! that client, as the configuration map it mirrors would.

use vstd::prelude::*;

use crate::capability::{Resource, ResourceV, Tool, ToolV};
use crate::config::McpServerName;

verus! {

/// The capability catalog of one connected backend: its resources and its
/// tools, each listed once per identifier.
pub struct McpClient {
    /// Resources provided by this backend.
    pub resources: Vec<Resource>,
    /// Tools provided by this backend.
    pub tools: Vec<Tool>,
}

/// Mathematical value of an `McpClient`.
#[verifier::ext_equal]
pub struct McpClientV {
    pub resources: Seq<ResourceV>,
    pub tools: Seq<ToolV>,
}

impl DeepView for McpClient {
    type V = McpClientV;

    open spec fn deep_view(&self) -> McpClientV {
        McpClientV { resources: self.resources.deep_view(), tools: self.tools.deep_view() }
    }
}

/// The aggregate of all connected backends, keyed by backend identifier.
pub struct ConnectorState {
    /// The connected backends, in the order they were added.
    pub clients: Vec<(McpServerName, McpClient)>,
}

impl DeepView for ConnectorState {
    type V = Seq<(Seq<char>, McpClientV)>;

    open spec fn deep_view(&self) -> Seq<(Seq<char>, McpClientV)> {
        self.clients.deep_view()
    }
}

/// Some entry of `clients` carries the backend identifier `name`.
pub open spec fn has_client(clients: Seq<(Seq<char>, McpClientV)>, name: Seq<char>) -> bool {
    exists|i: int| 0 <= i < clients.len() && clients[i].0 == name
}

/// `i` is the position of the first entry of `clients` carrying `name`.
pub open spec fn is_first_client_index(
    clients: Seq<(Seq<char>, McpClientV)>,
    name: Seq<char>,
    i: int,
) -> bool {
    0 <= i < clients.len() && clients[i].0 == name && (forall|j: int|
        0 <= j < i ==> (#[trigger] clients[j]).0 != name)
}

/// The position of the first entry of `clients` carrying `name`.
pub open spec fn first_client_index(
    clients: Seq<(Seq<char>, McpClientV)>,
    name: Seq<char>,
) -> int {
    choose|i: int| is_first_client_index(clients, name, i)
}

/// The catalog of the first entry of `clients` carrying `name`.
pub open spec fn client_of(
    clients: Seq<(Seq<char>, McpClientV)>,
    name: Seq<char>,
) -> McpClientV {
    clients[first_client_index(clients, name)].1
}

/// First-entry positions for one identifier coincide.
pub proof fn lemma_first_client_index_unique(
    clients: Seq<(Seq<char>, McpClientV)>,
    name: Seq<char>,
    i: int,
    j: int,
)
    requires
        is_first_client_index(clients, name, i),
        is_first_client_index(clients, name, j),
    ensures
        i == j,
{
}

/// Position of the first entry of `clients` carrying `name`, if any.
pub(crate) fn client_position(
    clients: &Vec<(McpServerName, McpClient)>,
    name: &String,
) -> (r: Option<usize>)
    ensures
        match r {
            Some(i) => is_first_client_index(clients.deep_view(), name@, i as int),
            None => !has_client(clients.deep_view(), name@),
        },
{
    let mut i: usize = 0;
    while i < clients.len()
        invariant
            i <= clients.len(),
            forall|j: int| 0 <= j < i ==> (#[trigger] clients.deep_view()[j]).0 != name@,
        decreases clients.len() - i,
    {
        if clients[i].0.0.eq(name) {
            proof {
                assert(clients.deep_view()[i as int].0 == name@);
            }
            return Some(i);
        }
        i = i + 1;
    }
    None
}

impl ConnectorState {
    /// Creates the empty state: no backend connected yet.
    pub fn new() -> (r: ConnectorState)
        ensures
            r.deep_view() =~= Seq::<(Seq<char>, McpClientV)>::empty(),
    {
        ConnectorState { clients: Vec::new() }
    }

    /// Adds one backend's catalog to the state under its identifier.
    /// An identifier already present keeps its place and gets the new
    /// catalog; a new identifier goes to the end.
    pub fn add_client(&mut self, name: McpServerName, client: McpClient)
        ensures
            has_client(old(self).deep_view(), name.deep_view()) ==> final(self).deep_view()
                == old(self).deep_view().update(
                first_client_index(old(self).deep_view(), name.deep_view()),
                (name.deep_view(), client.deep_view()),
            ),
            !has_client(old(self).deep_view(), name.deep_view()) ==> final(self).deep_view()
                == old(self).deep_view().push((name.deep_view(), client.deep_view())),
    {
        let ghost prev = self.deep_view();
        match client_position(&self.clients, &name.0) {
            Some(i) => {
                self.clients.remove(i);
                self.clients.insert(i, (name, client));
                proof {
                    assert(is_first_client_index(prev, prev[i as int].0, i as int));
                    lemma_first_client_index_unique(
                        prev,
                        prev[i as int].0,
                        i as int,
                        first_client_index(prev, prev[i as int].0),
                    );
                    assert(self.deep_view() =~= prev.update(
                        i as int,
                        self.clients.deep_view()[i as int],
                    ));
                }
            },
            None => {
                self.clients.push((name, client));
                proof {
                    assert(self.deep_view() =~= prev.push(self.clients.deep_view()[
                        self.clients.deep_view().len() - 1
                    ]));
                }
            },
        }
    }

    /// The catalog of the backend named `name`, if one is connected.
    pub fn find_client(&self, name: &String) -> (r: Option<&McpClient>)
        ensures
            match r {
                Some(c) => has_client(self.deep_view(), name@) && c.deep_view() == client_of(
                    self.deep_view(),
                    name@,
                ),
                None => !has_client(self.deep_view(), name@),
            },
    {
        match client_position(&self.clients, name) {
            Some(i) => {
                proof {
                    lemma_first_client_index_unique(
                        self.deep_view(),
                        name@,
                        i as int,
                        first_client_index(self.deep_view(), name@),
                    );
                }
                Some(&self.clients[i].1)
            },
            None => None,
        }
    }
}

} // verus!
