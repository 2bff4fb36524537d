use vstd::prelude::*;

use crate::error::JailError;
use crate::registry::views;
use crate::text::{chars_of, push_all, same_chars, string_from_chars};

verus! {

/// The container engine a jail runs on.
#[derive(Debug, Clone, Copy, PartialEq, Eq, Structural)]
pub enum Runtime {
    Podman,
    Docker,
}

/// The characters of an optional string.
pub open spec fn opt_view(o: Option<&str>) -> Option<Seq<char>> {
    match o {
        Some(s) => Some(s@),
        None => None,
    }
}

/// The socket path that a container sees for the forwarded SSH agent.
pub open spec fn agent_sock_env() -> Seq<char> {
    "SSH_AUTH_SOCK=/run/ssh.sock"@
}

/// Mount and environment arguments that forward the agent at `host_sock`.
pub open spec fn agent_args(host_sock: Seq<char>) -> Seq<Seq<char>> {
    seq!["-v"@, host_sock + ":/run/ssh.sock:ro"@, "-e"@, agent_sock_env()]
}

impl Runtime {
    /// The engine's command name, as spelled on the command line.
    pub open spec fn command_spec(self) -> Seq<char> {
        match self {
            Runtime::Podman => "podman"@,
            Runtime::Docker => "docker"@,
        }
    }

    /// Name of the executable that drives this engine.
    pub fn command(&self) -> (r: &'static str)
        ensures
            r@ == self.command_spec(),
    {
        match self {
            Runtime::Podman => "podman",
            Runtime::Docker => "docker",
        }
    }

    /// What forwarding the SSH agent takes on this engine.
    pub open spec fn ssh_agent_mount_spec(self, macos: bool, sock: Option<Seq<char>>) -> Option<
        Seq<Seq<char>>,
    > {
        match self {
            Runtime::Docker => if macos {
                Some(
                    seq![
                        "-v"@,
                        "/run/host-services/ssh-auth.sock:/run/ssh.sock:ro"@,
                        "-e"@,
                        agent_sock_env(),
                    ],
                )
            } else {
                match sock {
                    Some(s) => Some(agent_args(s)),
                    None => None,
                }
            },
            Runtime::Podman => if macos {
                None
            } else {
                match sock {
                    Some(s) => Some(agent_args(s)),
                    None => None,
                }
            },
        }
    }

    /// Extra launch arguments that forward the SSH agent, or none where it
    /// cannot be had: Docker Desktop on macOS offers a fixed socket; Podman on
    /// macOS runs in a VM that cannot mount host sockets; elsewhere the agent
    /// socket `sock` of the environment is mounted, if there is one.
    pub fn ssh_agent_mount(&self, macos: bool, sock: Option<&str>) -> (r: Option<Vec<String>>)
        ensures
            match r {
                Some(v) => self.ssh_agent_mount_spec(macos, opt_view(sock)) == Some(
                    views(v@),
                ),
                None => self.ssh_agent_mount_spec(macos, opt_view(sock)) is None,
            },
    {
        if macos {
            match self {
                Runtime::Docker => {
                    let mut v: Vec<String> = Vec::new();
                    v.push("-v".to_owned());
                    v.push("/run/host-services/ssh-auth.sock:/run/ssh.sock:ro".to_owned());
                    v.push("-e".to_owned());
                    v.push("SSH_AUTH_SOCK=/run/ssh.sock".to_owned());
                    assert(views(v@) =~= seq![
                        "-v"@,
                        "/run/host-services/ssh-auth.sock:/run/ssh.sock:ro"@,
                        "-e"@,
                        agent_sock_env(),
                    ]);
                    Some(v)
                },
                Runtime::Podman => None,
            }
        } else {
            match sock {
                Some(s) => {
                    let mut m = chars_of(s);
                    push_all(&mut m, &chars_of(":/run/ssh.sock:ro"));
                    let mut v: Vec<String> = Vec::new();
                    v.push("-v".to_owned());
                    v.push(string_from_chars(&m));
                    v.push("-e".to_owned());
                    v.push("SSH_AUTH_SOCK=/run/ssh.sock".to_owned());
                    assert(views(v@) =~= agent_args(s@));
                    Some(v)
                },
                None => None,
            }
        }
    }
}

/// The engine that a lower-cased override value names.
pub open spec fn runtime_named_spec(s: Seq<char>) -> Option<Runtime> {
    if s == "podman"@ {
        Some(Runtime::Podman)
    } else if s == "docker"@ {
        Some(Runtime::Docker)
    } else {
        None
    }
}

/// The engine that a lower-cased override value names, if any.
pub fn runtime_named(s: &str) -> (r: Option<Runtime>)
    ensures
        r == runtime_named_spec(s@),
{
    let v = chars_of(s);
    if same_chars(&v, &chars_of("podman")) {
        Some(Runtime::Podman)
    } else if same_chars(&v, &chars_of("docker")) {
        Some(Runtime::Docker)
    } else {
        None
    }
}

/// Whether the given engine was found to work.
pub open spec fn works(rt: Runtime, podman_available: bool, docker_available: bool) -> bool {
    match rt {
        Runtime::Podman => podman_available,
        Runtime::Docker => docker_available,
    }
}

/// Picks the engine: an explicitly requested one, which must work; else
/// Podman if it works; else Docker if it works; else none at all.
pub fn detect(requested: Option<Runtime>, podman_available: bool, docker_available: bool) -> (r:
    Result<Runtime, JailError>)
    ensures
        match requested {
            Some(rt) => if works(rt, podman_available, docker_available) {
                r == Ok::<Runtime, JailError>(rt)
            } else {
                r matches Err(JailError::RuntimeUnavailable(x)) && x == rt
            },
            None => if podman_available {
                r == Ok::<Runtime, JailError>(Runtime::Podman)
            } else if docker_available {
                r == Ok::<Runtime, JailError>(Runtime::Docker)
            } else {
                r matches Err(JailError::NoRuntime)
            },
        },
{
    match requested {
        Some(rt) => {
            let ok = match rt {
                Runtime::Podman => podman_available,
                Runtime::Docker => docker_available,
            };
            if ok {
                Ok(rt)
            } else {
                Err(JailError::RuntimeUnavailable(rt))
            }
        },
        None => {
            if podman_available {
                Ok(Runtime::Podman)
            } else if docker_available {
                Ok(Runtime::Docker)
            } else {
                Err(JailError::NoRuntime)
            }
        },
    }
}

/// How to install an engine on the given operating system.
pub fn install_instructions(os: &str) -> (r: &'static str)
    ensures
        os@ == "macos"@ ==> r@ == "Install a container runtime:\n\nPodman (recommended):\n  brew install podman\n  podman machine init\n  podman machine start\n\nDocker Desktop:\n  brew install --cask docker\n  # Then launch Docker.app"@,
        os@ == "linux"@ ==> r@ == "Install a container runtime:\n\nPodman (recommended):\n  sudo apt install podman      # Ubuntu/Debian\n  sudo dnf install podman      # Fedora\n  sudo pacman -S podman        # Arch\n\nDocker:\n  See https://docs.docker.com/engine/install/"@,
        os@ != "macos"@ && os@ != "linux"@ ==> r@ == "Please install Docker or Podman for your platform."@,
{
    proof {
        reveal_strlit("macos");
        reveal_strlit("linux");
        assert("macos"@[0] != "linux"@[0]);
    }
    let v = chars_of(os);
    if same_chars(&v, &chars_of("macos")) {
        "Install a container runtime:\n\nPodman (recommended):\n  brew install podman\n  podman machine init\n  podman machine start\n\nDocker Desktop:\n  brew install --cask docker\n  # Then launch Docker.app"
    } else if same_chars(&v, &chars_of("linux")) {
        "Install a container runtime:\n\nPodman (recommended):\n  sudo apt install podman      # Ubuntu/Debian\n  sudo dnf install podman      # Fedora\n  sudo pacman -S podman        # Arch\n\nDocker:\n  See https://docs.docker.com/engine/install/"
    } else {
        "Please install Docker or Podman for your platform."
    }
}

} // verus!
