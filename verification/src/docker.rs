//! The execution backend adapter: it turns a "run this command against the
//! project" intent into the exact argument vector of a container
//! invocation, and classifies exit statuses. Spawning the process is the
//! surrounding binary's job; every vector built here is pinned down
//! word for word by its contract.

use vstd::prelude::*;

verus! {

use crate::config::default_image;
use crate::errors::Error;
use crate::project::Project;
use crate::text::push_all;
use crate::text::push_owned;
use crate::text::push_str;

broadcast use crate::text::group_vec_string_view;

/// The backend adapter: which container image to run, and whether to echo
/// the constructed command lines.
#[derive(Debug, Clone, PartialEq)]
pub struct Docker {
    pub image: String,
    pub verbose: bool,
}

/// The bind-mount of the project root onto the container workspace.
pub open spec fn mount_arg_of(root: Seq<char>) -> Seq<char> {
    root + ":/workspace"@
}

/// The arguments every project-mounted invocation begins with: ephemeral
/// container, the root bound to the workspace, the workspace as working
/// directory.
pub open spec fn base_run_args(root: Seq<char>) -> Seq<Seq<char>> {
    seq!["run"@, "--rm"@, "-v"@, mount_arg_of(root), "-w"@, "/workspace"@]
}

/// The flags that expose the serial device, when asked for.
pub open spec fn usb_args(usb: bool) -> Seq<Seq<char>> {
    if usb {
        seq!["--device=/dev/ttyACM0"@, "--privileged"@]
    } else {
        Seq::<Seq<char>>::empty()
    }
}

/// The full argument vector of an interactive project invocation.
pub open spec fn run_in_project_args_of(
    root: Seq<char>,
    image: Seq<char>,
    cmd: Seq<Seq<char>>,
    extra_args: Seq<Seq<char>>,
    usb: bool,
) -> Seq<Seq<char>> {
    base_run_args(root) + usb_args(usb) + seq![image] + cmd + extra_args
}

/// The full argument vector of a capturing project invocation.
pub open spec fn capture_args_of(root: Seq<char>, image: Seq<char>, cmd: Seq<Seq<char>>) -> Seq<
    Seq<char>,
> {
    base_run_args(root) + seq![image] + cmd
}

/// The full argument vector of a project invocation with extra mount
/// options, which stand between the base arguments and the device flags.
pub open spec fn extra_mount_args_of(
    root: Seq<char>,
    image: Seq<char>,
    cmd: Seq<Seq<char>>,
    extra_mounts: Seq<Seq<char>>,
    usb: bool,
) -> Seq<Seq<char>> {
    base_run_args(root) + extra_mounts + usb_args(usb) + seq![image] + cmd
}

/// The full argument vector of an invocation outside any project: the
/// current directory is mounted instead, with an interactive terminal.
pub open spec fn standalone_args_of(
    cwd: Seq<char>,
    image: Seq<char>,
    cmd: Seq<Seq<char>>,
    usb: bool,
) -> Seq<Seq<char>> {
    seq!["run"@, "--rm"@, "-it"@, "-v"@, mount_arg_of(cwd), "-w"@, "/workspace"@] + usb_args(usb)
        + seq![image] + cmd
}

impl Docker {
    /// Builds the adapter. The caller reports whether the backend tool could
    /// be located on this machine; its absence is the `BackendUnavailable`
    /// error. An unset image falls back to the default.
    pub fn new(image: Option<String>, verbose: bool, backend_present: bool) -> (r: Result<
        Docker,
        Error,
    >)
        ensures
            match r {
                Ok(d) => {
                    &&& backend_present
                    &&& d.image@ == (match image {
                        Some(i) => i@,
                        None => "ghcr.io/meawoppl/affogato:latest"@,
                    })
                    &&& d.verbose == verbose
                },
                Err(e) => !backend_present && e == Error::BackendUnavailable,
            },
    {
        if !backend_present {
            return Err(Error::BackendUnavailable);
        }
        let image = match image {
            Some(i) => i,
            None => default_image(),
        };
        Ok(Docker { image, verbose })
    }

    /// The argument vector that checks whether the image is present
    /// locally.
    pub fn image_inspect_args(&self) -> (r: Vec<String>)
        ensures
            r.deep_view() == seq!["image"@, "inspect"@, self.image@],
    {
        let mut args: Vec<String> = Vec::new();
        push_str(&mut args, "image");
        push_str(&mut args, "inspect");
        push_owned(&mut args, self.image.clone());
        proof {
            assert(args.deep_view() =~= seq!["image"@, "inspect"@, self.image@]);
        }
        args
    }

    /// The argument vector that pulls the image.
    pub fn pull_args(&self) -> (r: Vec<String>)
        ensures
            r.deep_view() == seq!["pull"@, self.image@],
    {
        let mut args: Vec<String> = Vec::new();
        push_str(&mut args, "pull");
        push_owned(&mut args, self.image.clone());
        proof {
            assert(args.deep_view() =~= seq!["pull"@, self.image@]);
        }
        args
    }

    fn base_args(&self, root: &str) -> (r: Vec<String>)
        ensures
            r.deep_view() == base_run_args(root@),
    {
        let mut args: Vec<String> = Vec::new();
        push_str(&mut args, "run");
        push_str(&mut args, "--rm");
        push_str(&mut args, "-v");
        let mut mount = root.to_owned();
        mount.append(":/workspace");
        push_owned(&mut args, mount);
        push_str(&mut args, "-w");
        push_str(&mut args, "/workspace");
        proof {
            assert(args.deep_view() =~= base_run_args(root@));
        }
        args
    }

    fn push_usb(&self, args: &mut Vec<String>, usb: bool)
        ensures
            final(args).deep_view() == old(args).deep_view() + usb_args(usb),
    {
        let ghost pre = args.deep_view();
        if usb {
            push_str(args, "--device=/dev/ttyACM0");
            push_str(args, "--privileged");
        }
        proof {
            assert(args.deep_view() =~= pre + usb_args(usb));
        }
    }

    /// The argument vector of an interactive invocation against the
    /// project, or `NotInProject` when no root is resolved.
    pub fn run_in_project_args(
        &self,
        project: &Project,
        cmd: &Vec<String>,
        extra_args: &Vec<String>,
        usb: bool,
    ) -> (r: Result<Vec<String>, Error>)
        ensures
            match r {
                Ok(args) => project.root matches Some(root) && args.deep_view()
                    == run_in_project_args_of(
                    root@,
                    self.image@,
                    cmd.deep_view(),
                    extra_args.deep_view(),
                    usb,
                ),
                Err(e) => project.root is None && e == Error::NotInProject,
            },
    {
        let root = match &project.root {
            Some(r) => r,
            None => return Err(Error::NotInProject),
        };
        let mut args = self.base_args(root.as_str());
        self.push_usb(&mut args, usb);
        push_owned(&mut args, self.image.clone());
        let ghost mid = args.deep_view();
        push_all(&mut args, cmd);
        push_all(&mut args, extra_args);
        proof {
            assert(mid =~= base_run_args(root@) + usb_args(usb) + seq![self.image@]);
        }
        Ok(args)
    }

    /// The argument vector of a capturing invocation against the project,
    /// or `NotInProject` when no root is resolved.
    pub fn run_in_project_capture_args(&self, project: &Project, cmd: &Vec<String>) -> (r: Result<
        Vec<String>,
        Error,
    >)
        ensures
            match r {
                Ok(args) => project.root matches Some(root) && args.deep_view() == capture_args_of(
                    root@,
                    self.image@,
                    cmd.deep_view(),
                ),
                Err(e) => project.root is None && e == Error::NotInProject,
            },
    {
        let root = match &project.root {
            Some(r) => r,
            None => return Err(Error::NotInProject),
        };
        let mut args = self.base_args(root.as_str());
        push_owned(&mut args, self.image.clone());
        let ghost mid = args.deep_view();
        push_all(&mut args, cmd);
        proof {
            assert(mid =~= base_run_args(root@) + seq![self.image@]);
        }
        Ok(args)
    }

    /// The argument vector of a project invocation with extra mount
    /// options, or `NotInProject` when no root is resolved.
    pub fn run_in_project_with_extra_mounts_args(
        &self,
        project: &Project,
        cmd: &Vec<String>,
        extra_mounts: &Vec<String>,
        usb: bool,
    ) -> (r: Result<Vec<String>, Error>)
        ensures
            match r {
                Ok(args) => project.root matches Some(root) && args.deep_view()
                    == extra_mount_args_of(
                    root@,
                    self.image@,
                    cmd.deep_view(),
                    extra_mounts.deep_view(),
                    usb,
                ),
                Err(e) => project.root is None && e == Error::NotInProject,
            },
    {
        let root = match &project.root {
            Some(r) => r,
            None => return Err(Error::NotInProject),
        };
        let mut args = self.base_args(root.as_str());
        push_all(&mut args, extra_mounts);
        self.push_usb(&mut args, usb);
        push_owned(&mut args, self.image.clone());
        let ghost mid = args.deep_view();
        push_all(&mut args, cmd);
        proof {
            assert(mid =~= base_run_args(root@) + extra_mounts.deep_view() + usb_args(usb) + seq![
                self.image@,
            ]);
        }
        Ok(args)
    }

    /// The argument vector of an invocation outside any project, mounting
    /// the given current directory.
    pub fn run_standalone_args(&self, cwd: &str, cmd: &Vec<String>, usb: bool) -> (r: Vec<String>)
        ensures
            r.deep_view() == standalone_args_of(cwd@, self.image@, cmd.deep_view(), usb),
    {
        let mut args: Vec<String> = Vec::new();
        push_str(&mut args, "run");
        push_str(&mut args, "--rm");
        push_str(&mut args, "-it");
        push_str(&mut args, "-v");
        let mut mount = cwd.to_owned();
        mount.append(":/workspace");
        push_owned(&mut args, mount);
        push_str(&mut args, "-w");
        push_str(&mut args, "/workspace");
        proof {
            assert(args.deep_view() =~= seq!["run"@, "--rm"@, "-it"@, "-v"@, mount_arg_of(cwd@),
                "-w"@, "/workspace"@]);
        }
        self.push_usb(&mut args, usb);
        push_owned(&mut args, self.image.clone());
        let ghost mid = args.deep_view();
        push_all(&mut args, cmd);
        proof {
            assert(mid =~= seq!["run"@, "--rm"@, "-it"@, "-v"@, mount_arg_of(cwd@), "-w"@,
                "/workspace"@] + usb_args(usb) + seq![self.image@]);
        }
        args
    }

    /// The short form of an image identifier: the twelve characters after
    /// the hash scheme's prefix, when the identifier is long enough to
    /// hold them.
    pub fn short_image_id(id: &str) -> (r: Option<String>)
        ensures
            match r {
                Some(t) => id@.len() >= 19 && t@ == id@.subrange(7, 19),
                None => id@.len() < 19,
            },
    {
        let n = id.unicode_len();
        if n < 19 {
            return None;
        }
        Some(id.substring_char(7, 19).to_owned())
    }
}

/// Classifies one finished backend invocation: success is silent, a
/// non-zero exit surfaces as `CommandFailed` with the exit code preserved.
pub fn exit_result(success: bool, code: Option<i32>) -> (r: Result<(), Error>)
    ensures
        match r {
            Ok(_) => success,
            Err(e) => !success && e == (Error::CommandFailed { code }),
        },
{
    if success {
        Ok(())
    } else {
        Err(Error::CommandFailed { code })
    }
}

} // verus!
