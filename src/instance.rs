use vstd::prelude::*;
use crate::models::{Meta, Paths, Version};
use crate::error::DownloadError;
use crate::state::{Component, ComponentView, State};

verus! {

/// A vanilla game version: its catalog entry and its build manifest.
#[derive(Debug)]
pub struct Vanilla {
    pub version: Version,
    pub meta: Meta,
}

/// One game installation: the resolved version, its state and its locations.
#[derive(Debug)]
pub struct Instance {
    pub inner: Vanilla,
    pub state: State,
    pub paths: Paths,
}

/// Access to what the download phase reads from an installation.
pub trait DownloadHelper {
    fn state(&self) -> &State;

    fn paths(&self) -> &Paths;
}

impl DownloadHelper for Instance {
    fn state(&self) -> &State {
        &self.state
    }

    fn paths(&self) -> &Paths {
        &self.paths
    }
}

impl Instance {
    /// Records the Java runtime ("java", run as `java`, no extra arguments) and the
    /// game version ("net.minecraft"), replacing any earlier records of those names.
    pub fn create_state(&mut self) -> (r: Result<(), DownloadError>)
        ensures
            r is Ok,
            final(self).state@ == old(self).state@.insert(
                "java"@,
                ComponentView::Java { path: "java"@, arguments: None },
            ).insert("net.minecraft"@, ComponentView::Game { version: old(self).inner.version.id@ }),
            final(self).inner == old(self).inner,
            final(self).paths == old(self).paths,
            old(self).state.wf() ==> final(self).state.wf(),
    {
        self.state.insert(
            String::from_str("java"),
            Component::Java { path: String::from_str("java"), arguments: None },
        );
        let version = self.inner.version.id.clone();
        self.state.insert(String::from_str("net.minecraft"), Component::Game { version });
        Ok(())
    }
}

} // verus!
