//! The decisions of the installer: which settings the daemon is started
//! with, and which image and tag each of its cargoes names.
//!
//! Looking up the gateway, the host name and the group, and talking to the
//! container runtime, are the caller's part; what was found is handed in.

use crate::text::chars_of;
use vstd::prelude::*;
use vstd::string::*;

verus! {

/// The character that separates an image name from its tag.
pub const TAG_MARK: char = ':';

/// Why the installer cannot go on.
#[derive(Clone, Copy, Debug, PartialEq, Eq, Structural)]
pub enum SetupError {
    /// No gateway was given and none was found.
    NoGateway,
    /// The group that is to own the daemon's socket does not exist.
    NoGroup,
    /// No host name was given and none was found.
    NoHostname,
    /// A cargo of the installer names no image.
    NoImage,
    /// The image of a cargo names no tag.
    NoImageTag,
}

/// What the user chose; `None` where the choice was left open.
#[derive(Debug)]
pub struct SetupOpts {
    pub docker_host: Option<String>,
    pub state_dir: Option<String>,
    pub conf_dir: Option<String>,
    pub gateway: Option<String>,
    pub advertise_addr: Option<String>,
    pub deamon_hosts: Option<Vec<String>>,
    pub group: Option<String>,
    pub hostname: Option<String>,
}

/// What was found on the machine; `None` where nothing was found or
/// nothing was looked for.
#[derive(Debug)]
pub struct Discovered {
    /// The address of the default gateway.
    pub gateway: Option<String>,
    /// The name of the host.
    pub hostname: Option<String>,
    /// The identifier of the group.
    pub gid: Option<u32>,
}

/// The settings that the daemon is started with.
#[derive(Debug)]
pub struct NanocldArgs {
    pub docker_host: String,
    pub state_dir: String,
    pub conf_dir: String,
    pub gateway: String,
    pub hosts: Vec<String>,
    pub gid: u32,
    pub hostname: String,
    pub advertise_addr: String,
}

/// The view of a [`NanocldArgs`].
pub ghost struct ArgsView {
    pub docker_host: Seq<char>,
    pub state_dir: Seq<char>,
    pub conf_dir: Seq<char>,
    pub gateway: Seq<char>,
    pub hosts: Seq<Seq<char>>,
    pub gid: u32,
    pub hostname: Seq<char>,
    pub advertise_addr: Seq<char>,
}

impl View for NanocldArgs {
    type V = ArgsView;

    open spec fn view(&self) -> ArgsView {
        ArgsView {
            docker_host: self.docker_host@,
            state_dir: self.state_dir@,
            conf_dir: self.conf_dir@,
            gateway: self.gateway@,
            hosts: crate::filter::texts(self.hosts@),
            gid: self.gid,
            hostname: self.hostname@,
            advertise_addr: self.advertise_addr@,
        }
    }
}

/// The chosen text, or the fallback where nothing was chosen.
pub open spec fn chosen_or(choice: Option<String>, fallback: Seq<char>) -> Seq<char> {
    match choice {
        Some(text) => text@,
        None => fallback,
    }
}

/// A copy of the chosen text, or the fallback where nothing was chosen.
pub fn choose_or(choice: &Option<String>, fallback: &str) -> (text: String)
    ensures
        text@ == chosen_or(*choice, fallback@),
{
    match choice {
        Some(text) => text.clone(),
        None => fallback.to_owned(),
    }
}

impl SetupOpts {
    /// The name of the group that is to own the daemon's socket.
    pub open spec fn group_name(self) -> Seq<char> {
        chosen_or(self.group, "nanocl"@)
    }

    /// The addresses on which the daemon listens.
    pub open spec fn hosts(self) -> Seq<Seq<char>> {
        match self.deamon_hosts {
            Some(hosts) => crate::filter::texts(hosts@),
            None => seq!["unix:///run/nanocl/nanocl.sock"@],
        }
    }

    /// The settings that follow from the choices and from what was found,
    /// or the first thing that is missing: the gateway, then the group,
    /// then the host name.
    pub open spec fn resolved(self, found: Discovered) -> Result<ArgsView, SetupError> {
        if self.gateway is None && found.gateway is None {
            Err(SetupError::NoGateway)
        } else if found.gid is None {
            Err(SetupError::NoGroup)
        } else if self.hostname is None && found.hostname is None {
            Err(SetupError::NoHostname)
        } else {
            let gateway = match self.gateway {
                Some(g) => g@,
                None => found.gateway->Some_0@,
            };
            Ok(
                ArgsView {
                    docker_host: chosen_or(self.docker_host, "unix:///var/run/docker.sock"@),
                    state_dir: chosen_or(self.state_dir, "/var/lib/nanocl"@),
                    conf_dir: chosen_or(self.conf_dir, "/etc/nanocl"@),
                    gateway,
                    hosts: self.hosts(),
                    gid: found.gid->Some_0,
                    hostname: match self.hostname {
                        Some(h) => h@,
                        None => found.hostname->Some_0@,
                    },
                    advertise_addr: chosen_or(self.advertise_addr, gateway),
                },
            )
        }
    }

    /// Tells whether the gateway is left to be found.
    pub fn needs_gateway(&self) -> (needed: bool)
        ensures
            needed == (self.gateway is None),
    {
        self.gateway.is_none()
    }

    /// Tells whether the host name is left to be found.
    pub fn needs_hostname(&self) -> (needed: bool)
        ensures
            needed == (self.hostname is None),
    {
        self.hostname.is_none()
    }

    /// The name of the group to look up.
    pub fn group_to_find(&self) -> (group: String)
        ensures
            group@ == self.group_name(),
    {
        choose_or(&self.group, "nanocl")
    }

    /// Settles the settings of the daemon from the choices and from what
    /// was found.
    pub fn resolve(&self, found: &Discovered) -> (outcome: Result<NanocldArgs, SetupError>)
        ensures
            match self.resolved(*found) {
                Ok(args) => outcome matches Ok(a) && a@ == args,
                Err(e) => outcome matches Err(f) && f == e,
            },
    {
        let gateway = match &self.gateway {
            Some(g) => g.clone(),
            None => match &found.gateway {
                Some(g) => g.clone(),
                None => {
                    return Err(SetupError::NoGateway);
                },
            },
        };
        let gid = match found.gid {
            Some(gid) => gid,
            None => {
                return Err(SetupError::NoGroup);
            },
        };
        let hostname = match &self.hostname {
            Some(h) => h.clone(),
            None => match &found.hostname {
                Some(h) => h.clone(),
                None => {
                    return Err(SetupError::NoHostname);
                },
            },
        };
        let hosts = match &self.deamon_hosts {
            Some(hosts) => crate::filter::clone_texts(hosts),
            None => {
                let mut hosts: Vec<String> = Vec::new();
                hosts.push("unix:///run/nanocl/nanocl.sock".to_owned());
                assert(crate::filter::texts(hosts@) =~= seq!["unix:///run/nanocl/nanocl.sock"@]);
                hosts
            },
        };
        let advertise_addr = choose_or(&self.advertise_addr, gateway.as_str());
        Ok(
            NanocldArgs {
                docker_host: choose_or(&self.docker_host, "unix:///var/run/docker.sock"),
                state_dir: choose_or(&self.state_dir, "/var/lib/nanocl"),
                conf_dir: choose_or(&self.conf_dir, "/etc/nanocl"),
                gateway,
                hosts,
                gid,
                hostname,
                advertise_addr,
            },
        )
    }
}

/// The end of the field that begins at `from`: the index of the first
/// [`TAG_MARK`] at or behind `from`, or the length of the text if there is
/// none.
pub open spec fn field_end(text: Seq<char>, from: int) -> int
    decreases text.len() - from,
{
    if from >= text.len() {
        text.len() as int
    } else if text[from] == TAG_MARK {
        from
    } else {
        field_end(text, from + 1)
    }
}

/// The name and the tag that an image names: what stands before the first
/// [`TAG_MARK`], and what stands between it and the next one, or the end.
/// `None` if the image holds no [`TAG_MARK`].
pub open spec fn image_parts(image: Seq<char>) -> Option<(Seq<char>, Seq<char>)> {
    let mark = field_end(image, 0);
    if mark >= image.len() {
        None
    } else {
        Some((image.subrange(0, mark), image.subrange(mark + 1, field_end(image, mark + 1))))
    }
}

/// The end of a field lies in the text, no mark stands inside the field,
/// and a mark or the end of the text stands behind it.
pub proof fn lemma_field_end(text: Seq<char>, from: int)
    requires
        0 <= from <= text.len(),
    ensures
        from <= field_end(text, from) <= text.len(),
        forall|i: int| from <= i < field_end(text, from) ==> text[i] != TAG_MARK,
        field_end(text, from) < text.len() ==> text[field_end(text, from)] == TAG_MARK,
    decreases text.len() - from,
{
    if from < text.len() && text[from] != TAG_MARK {
        lemma_field_end(text, from + 1);
    }
}

/// The index at which the field that begins at `from` ends.
fn find_field_end(chars: &Vec<char>, from: usize) -> (end: usize)
    requires
        from <= chars.len(),
    ensures
        end == field_end(chars@, from as int),
        from <= end <= chars.len(),
{
    let mut i: usize = from;
    while i < chars.len() && chars[i] != TAG_MARK
        invariant
            from <= i <= chars.len(),
            field_end(chars@, from as int) == field_end(chars@, i as int),
        decreases chars.len() - i,
    {
        i = i + 1;
    }
    i
}

/// Splits the image of a cargo into its name and its tag.
pub fn split_image(image: &str) -> (outcome: Result<(String, String), SetupError>)
    ensures
        match image_parts(image@) {
            Some(parts) => outcome matches Ok(found) && found.0@ == parts.0 && found.1@
                == parts.1,
            None => outcome matches Err(e) && e == SetupError::NoImageTag,
        },
{
    let chars = chars_of(image);
    let mark = find_field_end(&chars, 0);
    if mark >= chars.len() {
        return Err(SetupError::NoImageTag);
    }
    let end = find_field_end(&chars, mark + 1);
    let name = image.substring_char(0, mark).to_owned();
    let tag = image.substring_char(mark + 1, end).to_owned();
    Ok((name, tag))
}

/// The name and the tag of the image of a cargo, where it names one.
pub fn cargo_image(image: &Option<String>) -> (outcome: Result<(String, String), SetupError>)
    ensures
        match *image {
            None => outcome matches Err(e) && e == SetupError::NoImage,
            Some(text) => match image_parts(text@) {
                Some(parts) => outcome matches Ok(found) && found.0@ == parts.0 && found.1@
                    == parts.1,
                None => outcome matches Err(e) && e == SetupError::NoImageTag,
            },
        },
{
    match image {
        None => Err(SetupError::NoImage),
        Some(text) => split_image(text.as_str()),
    }
}

/// The namespace that the installer deploys into: the one that it names,
/// or `system`.
pub fn deployment_namespace(namespace: &Option<String>) -> (name: String)
    ensures
        name@ == chosen_or(*namespace, "system"@),
{
    choose_or(namespace, "system")
}

} // verus!
