//! Plugin registry, manifests, capabilities, container utilities and plugin
//! loaders, with their behaviour stated as contracts and proved.

pub mod capabilities;
pub mod error;
pub mod external;
pub mod loader;
pub mod manifest;
pub mod registry;
pub mod text;
pub mod traits;
pub mod vessel;

pub use capabilities::Capability;
pub use error::{PluginError, PluginResult};
pub use manifest::{PluginKind, PluginManifest, MANIFEST_SCHEMA_VERSION};
pub use registry::{PluginRegistry, RegistryStats};
pub use traits::{AdapterPlugin, ConflictInfo, FeatureArtifacts, MergeResult, PluginConfig, WorktreeInfo};
pub use vessel::client::{ContainerClient, Launch, LaunchAction, LaunchEvent, LaunchStep};
pub use vessel::compose::{BuildConfig, ComposeFile, ComposeService, NetworkConfig, VolumeConfig};
pub use vessel::container::{Container, ContainerConfig, ContainerStatus};
pub use vessel::error::{ContainerError, VesselError};
pub use vessel::image::Image;
pub use vessel::runtime::{
    CommandOutput, ContainerCreateConfig, ContainerInfo, ContainerRuntime, DockerRuntime,
    PodmanRuntime, PortMapping, Protocol, VolumeMapping,
};
