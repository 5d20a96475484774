//! The container client: a runtime together with the decisions that turn
//! runtime outcomes into images, containers and errors.

use vstd::prelude::*;

use crate::vessel::container::{Container, ContainerStatus};
use crate::vessel::error::VesselError;
use crate::vessel::image::Image;
use crate::vessel::runtime::{empty_env, string_map_contents, ContainerCreateConfig, ContainerRuntime};

verus! {

/// Unified container client for all runtimes.
#[derive(Debug)]
pub struct ContainerClient<R> {
    runtime: R,
}

/// How far a container launch has got.
pub enum LaunchStep {
    /// Waiting for the runtime to create the container.
    Creating,
    /// Waiting for the runtime to start the created container `id`.
    Starting { id: String },
}

/// A container launch in progress: which image, under which name, whether
/// the container is to be started once created, and how far it has got.
pub struct Launch {
    pub image: String,
    pub name: String,
    pub start: bool,
    pub step: LaunchStep,
}

/// What the runtime reported for the last action.
pub enum LaunchEvent {
    /// The outcome of creating the container: its ID, or an error message.
    Created(Result<String, String>),
    /// The outcome of starting the container.
    Started(Result<(), String>),
}

/// What the caller is to do next.
pub enum LaunchAction {
    /// Ask the runtime to create a container.
    Create(ContainerCreateConfig),
    /// Ask the runtime to start the container with this ID.
    Start(String),
    /// The launch is over, with this result.
    Done(Result<Container, VesselError>),
}

/// The event `e` answers the action that launch `l` is waiting on.
pub open spec fn answers(l: Launch, e: LaunchEvent) -> bool {
    match (l.step, e) {
        (LaunchStep::Creating, LaunchEvent::Created(_)) => true,
        (LaunchStep::Starting { .. }, LaunchEvent::Started(_)) => true,
        _ => false,
    }
}

/// The configuration a launch creates its container with: the image and
/// name, and nothing else.
pub open spec fn is_launch_config(c: ContainerCreateConfig, image: Seq<char>, name: Seq<char>) -> bool {
    &&& c.image@ == image
    &&& c.name matches Some(n) && n@ == name
    &&& string_map_contents(c.env).dom().is_empty()
    &&& c.ports@.len() == 0
    &&& c.volumes@.len() == 0
}

/// `r` is a container with these fields.
pub open spec fn is_container(
    c: Container,
    id: Seq<char>,
    name: Seq<char>,
    image: Seq<char>,
    status: ContainerStatus,
) -> bool {
    c.id@ == id && c.name@ == name && c.image@ == image && c.status == status
}

impl<R: ContainerRuntime> ContainerClient<R> {
    /// Creates a new container client.
    pub fn new(runtime: R) -> (r: Self)
        ensures
            r.runtime() == runtime,
    {
        ContainerClient { runtime }
    }

    /// The runtime this client drives.
    pub closed spec fn runtime(&self) -> R {
        self.runtime
    }

    /// Borrows the runtime this client drives.
    pub fn runtime_ref(&self) -> (r: &R)
        ensures
            *r == self.runtime(),
    {
        &self.runtime
    }

    /// The runtime name: what the runtime's `name` reports.
    pub fn runtime_name(&self) -> (r: &str)
        ensures
            call_ensures(R::name, (&self.runtime(),), r),
    {
        self.runtime.name()
    }
}

impl<R> ContainerClient<R> {
    /// The image that a pull of `image` yields: on success an image whose ID
    /// and name are the reference as given, tagged `latest`, of unknown
    /// (zero) size; a runtime failure becomes a runtime error.
    pub fn pulled_image(image: &str, outcome: Result<(), String>) -> (r: Result<Image, VesselError>)
        ensures
            match outcome {
                Ok(()) => r matches Ok(img) && img.id@ == image@ && img.name@ == image@
                    && img.tag@ == "latest"@ && img.size == 0,
                Err(e) => r matches Err(VesselError::Runtime(m)) && m@ == e@,
            },
    {
        match outcome {
            Ok(()) => Ok(
                Image {
                    id: String::from_str(image),
                    name: String::from_str(image),
                    tag: String::from_str("latest"),
                    size: 0,
                },
            ),
            Err(e) => Err(VesselError::Runtime(e)),
        }
    }

    /// Begins a launch: first the container is created from `image` under
    /// `name`; if `start`, it is then started.
    pub fn begin_launch(image: &str, name: &str, start: bool) -> (r: (Launch, LaunchAction))
        ensures
            r.0.image@ == image@,
            r.0.name@ == name@,
            r.0.start == start,
            r.0.step is Creating,
            r.1 matches LaunchAction::Create(c) && is_launch_config(c, image@, name@),
    {
        let config = ContainerCreateConfig {
            image: String::from_str(image),
            name: Some(String::from_str(name)),
            env: empty_env(),
            ports: Vec::new(),
            volumes: Vec::new(),
        };
        let launch = Launch {
            image: String::from_str(image),
            name: String::from_str(name),
            start,
            step: LaunchStep::Creating,
        };
        (launch, LaunchAction::Create(config))
    }

    /// Advances a launch by what the runtime reported: a failure ends it with
    /// a runtime error; a created container is started if the launch asks
    /// for it and is otherwise the result (status `Created`); a started
    /// container is the result (status `Running`). The launch moves on to
    /// starting only in the first case; otherwise its step stays as it was.
    pub fn advance_launch(launch: Launch, event: LaunchEvent) -> (r: (Launch, LaunchAction))
        requires
            answers(launch, event),
        ensures
            r.0.image == launch.image,
            r.0.name == launch.name,
            r.0.start == launch.start,
            !(launch.start && event matches LaunchEvent::Created(Ok(_))) ==> r.0.step
                == launch.step,
            match event {
                LaunchEvent::Created(Err(e)) => r.1 matches LaunchAction::Done(Err(VesselError::Runtime(m))) && m@ == e@,
                LaunchEvent::Created(Ok(id)) => if launch.start {
                    &&& r.0.step matches LaunchStep::Starting { id: s } && s@ == id@
                    &&& r.1 matches LaunchAction::Start(s) && s@ == id@
                } else {
                    r.1 matches LaunchAction::Done(Ok(c)) && is_container(
                        c,
                        id@,
                        launch.name@,
                        launch.image@,
                        ContainerStatus::Created,
                    )
                },
                LaunchEvent::Started(Err(e)) => r.1 matches LaunchAction::Done(Err(VesselError::Runtime(m))) && m@ == e@,
                LaunchEvent::Started(Ok(())) => launch.step matches LaunchStep::Starting { id }
                    && r.1 matches LaunchAction::Done(Ok(c)) && is_container(
                    c,
                    id@,
                    launch.name@,
                    launch.image@,
                    ContainerStatus::Running,
                ),
            },
    {
        let Launch { image, name, start, step } = launch;
        match event {
            LaunchEvent::Created(Err(e)) => (
                Launch { image, name, start, step },
                LaunchAction::Done(Err(VesselError::Runtime(e))),
            ),
            LaunchEvent::Created(Ok(id)) => {
                if start {
                    let action = LaunchAction::Start(id.clone());
                    (Launch { image, name, start, step: LaunchStep::Starting { id } }, action)
                } else {
                    let c = Container {
                        id,
                        name: name.clone(),
                        image: image.clone(),
                        status: ContainerStatus::Created,
                    };
                    (Launch { image, name, start, step }, LaunchAction::Done(Ok(c)))
                }
            },
            LaunchEvent::Started(Err(e)) => (
                Launch { image, name, start, step },
                LaunchAction::Done(Err(VesselError::Runtime(e))),
            ),
            LaunchEvent::Started(Ok(())) => {
                match step {
                    LaunchStep::Starting { id } => {
                        let c = Container {
                            id: id.clone(),
                            name: name.clone(),
                            image: image.clone(),
                            status: ContainerStatus::Running,
                        };
                        (
                            Launch { image, name, start, step: LaunchStep::Starting { id } },
                            LaunchAction::Done(Ok(c)),
                        )
                    },
                    LaunchStep::Creating => {
                        proof {
                            assert(false);
                        }
                        (
                            Launch { image, name, start, step: LaunchStep::Creating },
                            LaunchAction::Done(Err(VesselError::Runtime(String::new()))),
                        )
                    },
                }
            },
        }
    }
}

} // verus!
