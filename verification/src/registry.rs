//! [`ConnectorRegistry`]: look up connectors by name.

use vstd::prelude::*;

use crate::error::ConnectorError;
use crate::table::Table;

verus! {

/// A registry mapping connector names to connectors.
#[derive(Debug)]
pub struct ConnectorRegistry<C> {
    connectors: Table<C>,
}

impl<C> View for ConnectorRegistry<C> {
    type V = Map<Seq<char>, C>;

    closed spec fn view(&self) -> Map<Seq<char>, C> {
        self.connectors@
    }
}

impl<C> ConnectorRegistry<C> {
    /// Whether no name is registered twice.
    pub closed spec fn wf(&self) -> bool {
        self.connectors.wf()
    }

    /// Creates an empty registry.
    #[must_use]
    pub fn new() -> (res: Self)
        ensures
            res.wf(),
            res@ == Map::<Seq<char>, C>::empty(),
    {
        ConnectorRegistry { connectors: Table::new() }
    }

    /// Registers a connector under a name, in place of the one that was there.
    pub fn register(&mut self, name: String, connector: C)
        requires
            old(self).wf(),
        ensures
            final(self).wf(),
            final(self)@ == old(self)@.insert(name@, connector),
    {
        self.connectors.insert(name, connector);
    }

    /// Looks a connector up by name.
    pub fn get(&self, name: &str) -> (res: Result<&C, ConnectorError>)
        requires
            self.wf(),
        ensures
            match res {
                Ok(c) => self@.dom().contains(name@) && self@[name@] == *c,
                Err(e) => !self@.dom().contains(name@) && (e matches ConnectorError::UnknownConnector(
                    n,
                ) && n@ == name@),
            },
    {
        match self.connectors.get(name) {
            Some(c) => Ok(c),
            None => Err(ConnectorError::UnknownConnector(name.to_owned())),
        }
    }

    /// All registered connector names, each once.
    pub fn names(&self) -> (res: Vec<String>)
        requires
            self.wf(),
        ensures
            res.deep_view().no_duplicates(),
            res.deep_view().to_set() == self@.dom(),
            res.len() == self@.dom().len(),
    {
        self.connectors.names()
    }
}

impl<C> Default for ConnectorRegistry<C> {
    fn default() -> (res: Self)
        ensures
            res.wf(),
            res@ == Map::<Seq<char>, C>::empty(),
    {
        ConnectorRegistry::new()
    }
}

} // verus!
