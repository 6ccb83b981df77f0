//! Registration as a per-user launchd agent: where the agent's files go,
//! what its property list says, and which launchctl commands load and
//! unload it.
use vstd::prelude::*;

verus! {

/// The path `base` with `part` adjoined.
pub uninterp spec fn path_joined(base: Seq<char>, part: Seq<char>) -> Seq<char>;

/// Relies on `Path::join` (read back with `to_string_lossy`): `part`
/// adjoined to `base`; the result depends on the two paths alone.
#[verifier::external_body]
fn join(base: &str, part: &str) -> (r: String)
    ensures
        r@ == path_joined(base@, part@),
{
    std::path::Path::new(base).join(part).to_string_lossy().into_owned()
}

/// The property list of an agent called `name` that runs `bin`, keeps it
/// alive, starts it at load and logs to files under /tmp.
pub open spec fn plist_text(name: Seq<char>, bin: Seq<char>) -> Seq<char> {
    PLIST_HEAD@ + name + PLIST_MIDDLE@ + bin + PLIST_TAIL@
}

pub const PLIST_HEAD: &'static str = "<?xml version=\"1.0\" encoding=\"UTF-8\"?>
<!DOCTYPE plist PUBLIC \"-//Apple//DTD PLIST 1.0//EN\" \"http://www.apple.com/DTDs/PropertyList-1.0.dtd\">
<plist version=\"1.0\">
    <dict>
        <key>Label</key>
        <string>";

pub const PLIST_MIDDLE: &'static str = "</string>
        <key>ProgramArguments</key>
        <array>
            <string>";

pub const PLIST_TAIL: &'static str = "</string>
        </array>
        <key>KeepAlive</key>
        <true/>
        <key>RunAtLoad</key>
        <true/>
        <key>StandardOutPath</key>
        <string>/tmp/app-activate.out.log</string>
        <key>StandardErrorPath</key>
        <string>/tmp/app-activate.err.log</string>
    </dict>
</plist>
";

/// The texts of a command line's words.
pub open spec fn words(v: Seq<String>) -> Seq<Seq<char>> {
    v.map_values(|s: String| s@)
}

/// The texts of a list of command lines.
pub open spec fn command_texts(v: Seq<Vec<String>>) -> Seq<Seq<Seq<char>>> {
    v.map_values(|c: Vec<String>| words(c@))
}

/// A per-user launchd agent: its label, the user's numeric id, the binary
/// it runs and the property list that describes it.
#[derive(Debug)]
pub struct LaunchdManager {
    pub name: String,
    pub id: String,
    pub bin: String,
    pub plist: String,
}

/// Builds a string from its parts.
fn joined_text(a: &str, b: &str) -> (r: String)
    ensures
        r@ == a@ + b@,
{
    let mut r = String::from_str(a);
    r.append(b);
    r
}

impl LaunchdManager {
    /// The agent called `name` for the user with numeric id `uid` (as
    /// `id -u` prints it) and home directory `home`: it runs
    /// `home/.cargo/bin/name` and is described by
    /// `home/Library/LaunchAgents/name.plist`.
    pub fn new(name: &str, uid: &str, home: &str) -> (r: LaunchdManager)
        ensures
            r.name@ == name@,
            r.id@ == uid@,
            r.bin@ == path_joined(path_joined(path_joined(home@, ".cargo"@), "bin"@), name@),
            r.plist@ == path_joined(
                path_joined(path_joined(home@, "Library"@), "LaunchAgents"@),
                name@ + ".plist"@,
            ),
    {
        let cargo = join(home, ".cargo");
        let bins = join(cargo.as_str(), "bin");
        let bin = join(bins.as_str(), name);
        let library = join(home, "Library");
        let agents = join(library.as_str(), "LaunchAgents");
        let file = joined_text(name, ".plist");
        let plist = join(agents.as_str(), file.as_str());
        LaunchdManager { name: String::from_str(name), id: String::from_str(uid), bin, plist }
    }

    /// The property list to write at `self.plist`.
    pub fn plist_contents(&self) -> (r: String)
        ensures
            r@ == plist_text(self.name@, self.bin@),
    {
        let mut r = String::from_str(PLIST_HEAD);
        r.append(self.name.as_str());
        r.append(PLIST_MIDDLE);
        r.append(self.bin.as_str());
        r.append(PLIST_TAIL);
        r
    }

    /// The launchctl command lines that register the agent, in order:
    /// bootstrap it in the user's GUI domain, load it, enable it, start it.
    pub fn register_commands(&self) -> (r: Vec<Vec<String>>)
        ensures
            command_texts(r@) == seq![
                seq!["launchctl"@, "bootstrap"@, "gui/"@ + self.id@, self.plist@],
                seq!["launchctl"@, "load"@, "-w"@, self.plist@],
                seq!["launchctl"@, "enable"@, "gui/"@ + self.id@ + "/"@ + self.name@],
                seq!["launchctl"@, "start"@, self.name@],
            ],
    {
        let domain = joined_text("gui/", self.id.as_str());
        let mut service = joined_text(domain.as_str(), "/");
        service.append(self.name.as_str());

        let mut bootstrap: Vec<String> = Vec::new();
        bootstrap.push(String::from_str("launchctl"));
        bootstrap.push(String::from_str("bootstrap"));
        bootstrap.push(domain);
        bootstrap.push(self.plist.clone());
        let mut load: Vec<String> = Vec::new();
        load.push(String::from_str("launchctl"));
        load.push(String::from_str("load"));
        load.push(String::from_str("-w"));
        load.push(self.plist.clone());
        let mut enable: Vec<String> = Vec::new();
        enable.push(String::from_str("launchctl"));
        enable.push(String::from_str("enable"));
        enable.push(service);
        let mut start: Vec<String> = Vec::new();
        start.push(String::from_str("launchctl"));
        start.push(String::from_str("start"));
        start.push(self.name.clone());

        let mut r: Vec<Vec<String>> = Vec::new();
        r.push(bootstrap);
        r.push(load);
        r.push(enable);
        r.push(start);
        assert(words(r@[0]@) =~= seq!["launchctl"@, "bootstrap"@, "gui/"@ + self.id@, self.plist@]);
        assert(words(r@[1]@) =~= seq!["launchctl"@, "load"@, "-w"@, self.plist@]);
        assert(words(r@[2]@) =~= seq!["launchctl"@, "enable"@, "gui/"@ + self.id@ + "/"@ + self.name@]);
        assert(words(r@[3]@) =~= seq!["launchctl"@, "start"@, self.name@]);
        assert(command_texts(r@) =~= seq![
            seq!["launchctl"@, "bootstrap"@, "gui/"@ + self.id@, self.plist@],
            seq!["launchctl"@, "load"@, "-w"@, self.plist@],
            seq!["launchctl"@, "enable"@, "gui/"@ + self.id@ + "/"@ + self.name@],
            seq!["launchctl"@, "start"@, self.name@],
        ]);
        r
    }

    /// The launchctl command lines that unregister the agent, in order:
    /// stop it, then unload it; the property list is removed after them.
    pub fn unregister_commands(&self) -> (r: Vec<Vec<String>>)
        ensures
            command_texts(r@) == seq![
                seq!["launchctl"@, "stop"@, self.name@],
                seq!["launchctl"@, "unload"@, "-w"@, self.plist@],
            ],
    {
        let mut stop: Vec<String> = Vec::new();
        stop.push(String::from_str("launchctl"));
        stop.push(String::from_str("stop"));
        stop.push(self.name.clone());
        let mut unload: Vec<String> = Vec::new();
        unload.push(String::from_str("launchctl"));
        unload.push(String::from_str("unload"));
        unload.push(String::from_str("-w"));
        unload.push(self.plist.clone());

        let mut r: Vec<Vec<String>> = Vec::new();
        r.push(stop);
        r.push(unload);
        assert(words(r@[0]@) =~= seq!["launchctl"@, "stop"@, self.name@]);
        assert(words(r@[1]@) =~= seq!["launchctl"@, "unload"@, "-w"@, self.plist@]);
        assert(command_texts(r@) =~= seq![
            seq!["launchctl"@, "stop"@, self.name@],
            seq!["launchctl"@, "unload"@, "-w"@, self.plist@],
        ]);
        r
    }
}

} // verus!
