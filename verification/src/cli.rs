//! What the command line selects.

use vstd::prelude::*;

verus! {

/// The backend that builds the image.
#[derive(Clone, Copy, Debug, PartialEq, Eq, Hash, Structural)]
pub enum ContainerBackend {
    /// The Docker daemon, reached through its local API.
    Docker,
    /// The `podman` program, run as a subprocess.
    Podman,
}

impl ContainerBackend {
    /// The backend that is used where none is selected.
    pub fn default_backend() -> (backend: ContainerBackend)
        ensures
            backend == ContainerBackend::Docker,
    {
        ContainerBackend::Docker
    }
}

} // verus!
