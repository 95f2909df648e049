//! The startup configuration of the tunnel.

use crate::platform::optional_text;
use crate::text::{
    ascii_lower, ascii_lower_text, decimal, decimal_text, is_decimal_of, law_decimal_is_exact,
    law_decimal_is_injective, same_text_ignoring_ascii_case,
};
use vstd::prelude::*;
use vstd::utf8::*;

verus! {

/// The startup configuration, as the parent process hands it over.
#[derive(Debug)]
pub struct Config {
    pub call_id: u64,
    pub is_outgoing: bool,
    pub local_device_id: u32,
    pub input_device_name: Option<String>,
    pub output_device_name: Option<String>,
    /// Optional audio backend selector. When absent, the environment variable
    /// [`AUDIO_MODE_ENV`] is consulted, and the tunnel falls back to the virtual-device backend.
    pub audio_mode: Option<String>,
}

/// Which audio backend the tunnel drives for a call.
#[derive(Debug, Clone, Copy, PartialEq, Eq, Structural)]
pub enum AudioMode {
    /// Real host audio via per-call virtual devices (the default).
    Device,
    /// Raw PCM exchanged with the parent over a Unix domain stream socket.
    Pipe,
}

/// Environment variable that selects the audio backend when the config does not.
pub const AUDIO_MODE_ENV: &'static str = "SIGNAL_CALL_TUNNEL_AUDIO_MODE";

/// Environment variable for the directory that holds pipe-mode sockets.
pub const SOCKET_DIR_ENV: &'static str = "SIGNAL_CALL_TUNNEL_SOCKET_DIR";

/// The audio mode by the setting in the config, if any, and that of the environment, if any.
pub open spec fn audio_mode_of(
    setting: Option<Seq<char>>,
    environment: Option<Seq<char>>,
) -> AudioMode {
    let mode = match setting {
        Some(mode) => mode,
        None => match environment {
            Some(mode) => mode,
            None => seq![],
        },
    };
    if ascii_lower_text(mode) == "pipe"@ {
        AudioMode::Pipe
    } else {
        AudioMode::Device
    }
}

/// The name of a call's pipe socket.
pub open spec fn socket_name(call_id: u64) -> Seq<char> {
    "signal-call-"@ + decimal(call_id as nat) + ".sock"@
}

/// The path of the file `name` in the directory `dir`: a slash between them unless the directory
/// is empty or ends in one.
pub open spec fn path_in(dir: Seq<u8>, name: Seq<u8>) -> Seq<u8> {
    if dir.len() == 0 || dir.last() == 0x2f {
        dir + name
    } else {
        dir.push(0x2f) + name
    }
}

/// The device name in the config, if any; otherwise `base`, which the call id makes unique unless
/// names are fixed.
pub open spec fn device_name_of(
    setting: Option<Seq<char>>,
    base: Seq<char>,
    call_id: u64,
    fixed_names: bool,
) -> Seq<char> {
    match setting {
        Some(name) => name,
        None => if fixed_names {
            base
        } else {
            base + "_"@ + decimal(call_id as nat)
        },
    }
}

impl Config {
    /// Resolve the effective audio mode: the explicit `audio_mode` config field takes precedence,
    /// then the value of [`AUDIO_MODE_ENV`], otherwise [`AudioMode::Device`].
    #[must_use]
    pub fn resolve_audio_mode(&self, environment: Option<&str>) -> (mode: AudioMode)
        ensures
            mode == audio_mode_of(
                optional_text(self.audio_mode),
                match environment {
                    Some(text) => Some(text@),
                    None => None,
                },
            ),
    {
        proof {
            reveal_strlit("");
            reveal_strlit("pipe");
            assert(""@ =~= seq![]);
            assert(ascii_lower_text("pipe"@) =~= "pipe"@);
        }
        let mode = match &self.audio_mode {
            Some(mode) => mode.as_str(),
            None => match environment {
                Some(mode) => mode,
                None => "",
            },
        };
        if same_text_ignoring_ascii_case(mode, "pipe") {
            AudioMode::Pipe
        } else {
            AudioMode::Device
        }
    }

    /// The file name of the pipe-mode socket, keyed by call id.
    pub fn pipe_socket_name(&self) -> (name: String)
        ensures
            name@ == socket_name(self.call_id),
    {
        let mut name = "signal-call-".to_string();
        name.append(decimal_text(self.call_id).as_str());
        name.append(".sock");
        name
    }

    /// Deterministic Unix socket path for pipe mode, under the directory that [`SOCKET_DIR_ENV`]
    /// names (or the system temp dir) and keyed by call id. Paths are byte strings.
    #[must_use]
    pub fn pipe_socket_path(&self, socket_dir: Option<&[u8]>, temp_dir: &[u8]) -> (path: Vec<u8>)
        ensures
            path@ == path_in(
                match socket_dir {
                    Some(dir) => dir@,
                    None => temp_dir@,
                },
                encode_utf8(socket_name(self.call_id)),
            ),
    {
        let dir = match socket_dir {
            Some(dir) => dir,
            None => temp_dir,
        };
        let mut path: Vec<u8> = Vec::new();
        path.extend_from_slice(dir);
        assert(path@ =~= dir@);
        if path.len() > 0 && path[path.len() - 1] != 0x2f {
            path.push(0x2f);
        }
        let name = self.pipe_socket_name();
        path.extend_from_slice(name.as_str().as_bytes());
        assert(path@ =~= path_in(dir@, encode_utf8(socket_name(self.call_id))));
        path
    }

    /// The name of the device that the call records from. Names are fixed where drivers cannot be
    /// made per call.
    pub fn input_name(&self, fixed_names: bool) -> (name: String)
        ensures
            name@ == device_name_of(
                optional_text(self.input_device_name),
                "signal_input"@,
                self.call_id,
                fixed_names,
            ),
    {
        device_name(&self.input_device_name, "signal_input", self.call_id, fixed_names)
    }

    /// The name of the device that the call plays to. Names are fixed where drivers cannot be
    /// made per call.
    pub fn output_name(&self, fixed_names: bool) -> (name: String)
        ensures
            name@ == device_name_of(
                optional_text(self.output_device_name),
                "signal_output"@,
                self.call_id,
                fixed_names,
            ),
    {
        device_name(&self.output_device_name, "signal_output", self.call_id, fixed_names)
    }
}

fn device_name(setting: &Option<String>, base: &str, call_id: u64, fixed_names: bool) -> (name:
    String)
    ensures
        name@ == device_name_of(optional_text(*setting), base@, call_id, fixed_names),
{
    match setting {
        Some(name) => name.clone(),
        None => {
            let mut name = base.to_string();
            if !fixed_names {
                name.append("_");
                name.append(decimal_text(call_id).as_str());
            }
            name
        },
    }
}

/// An audio mode in the config wins, whatever the environment says.
pub proof fn law_explicit_audio_mode_wins(
    setting: Seq<char>,
    environment: Option<Seq<char>>,
    other_environment: Option<Seq<char>>,
)
    ensures
        audio_mode_of(Some(setting), environment) == audio_mode_of(
            Some(setting),
            other_environment,
        ),
{
}

/// An audio mode means the same in the config and, where the config has none, in the environment;
/// the case of its letters does not matter; and without either the mode is the device mode.
pub proof fn law_audio_mode_fallback(mode: Seq<char>, same_mode: Seq<char>)
    requires
        ascii_lower_text(mode) == ascii_lower_text(same_mode),
    ensures
        audio_mode_of(None, Some(mode)) == audio_mode_of(Some(same_mode), None),
        audio_mode_of(None, None) == AudioMode::Device,
{
    reveal_strlit("pipe");
    assert(ascii_lower_text(seq![]).len() == 0);
}

/// In one directory, different calls have different socket paths.
pub proof fn law_socket_path_is_keyed_by_call_id(dir: Seq<u8>, a: u64, b: u64)
    requires
        path_in(dir, encode_utf8(socket_name(a))) == path_in(dir, encode_utf8(socket_name(b))),
    ensures
        a == b,
{
    broadcast use encode_utf8_decode_utf8;

    let base = path_in(dir, seq![]);
    let x = encode_utf8(socket_name(a));
    let y = encode_utf8(socket_name(b));
    assert(path_in(dir, x) =~= base + x);
    assert(path_in(dir, y) =~= base + y);
    assert(x =~= (base + x).skip(base.len() as int));
    assert(y =~= (base + y).skip(base.len() as int));
    assert(socket_name(a) == socket_name(b)) by {
        assert(decode_utf8(x) == socket_name(a));
        assert(decode_utf8(y) == socket_name(b));
    }
    let prefix = "signal-call-"@;
    let suffix = ".sock"@;
    let da = decimal(a as nat);
    let db = decimal(b as nat);
    assert(da.len() == db.len());
    assert(da =~= socket_name(a).subrange(prefix.len() as int, (prefix.len() + da.len()) as int));
    assert(db =~= socket_name(b).subrange(prefix.len() as int, (prefix.len() + db.len()) as int));
    law_decimal_is_injective(a as nat, b as nat);
}

/// Where names are not fixed and the config names no device, different calls have different
/// devices.
pub proof fn law_device_name_is_unique_per_call(base: Seq<char>, a: u64, b: u64)
    requires
        device_name_of(None, base, a, false) == device_name_of(None, base, b, false),
    ensures
        a == b,
{
    let prefix = base + "_"@;
    let da = decimal(a as nat);
    let db = decimal(b as nat);
    assert(da =~= (prefix + da).skip(prefix.len() as int));
    assert(db =~= (prefix + db).skip(prefix.len() as int));
    law_decimal_is_injective(a as nat, b as nat);
}

/// The mode is the pipe mode exactly where the setting that counts is `pipe`, letter by letter, in
/// whatever case: the config's setting where it has one, otherwise the environment's.
pub proof fn law_pipe_mode_is_spelled_out(
    setting: Option<Seq<char>>,
    environment: Option<Seq<char>>,
    mode: Seq<char>,
)
    requires
        setting == Some(mode) || (setting is None && environment == Some(mode)),
    ensures
        audio_mode_of(setting, environment) is Pipe <==> {
            &&& mode.len() == 4
            &&& mode[0] == 'p' || mode[0] == 'P'
            &&& mode[1] == 'i' || mode[1] == 'I'
            &&& mode[2] == 'p' || mode[2] == 'P'
            &&& mode[3] == 'e' || mode[3] == 'E'
        },
        audio_mode_of(None, None) is Device,
{
    reveal_strlit("pipe");
    let lower = ascii_lower_text(mode);
    assert(lower.len() == mode.len());
    assert(forall|i: int| 0 <= i < mode.len() ==> lower[i] == ascii_lower(mode[i]));
    if mode.len() == 4 {
        assert(lower[0] == ascii_lower(mode[0]) && lower[1] == ascii_lower(mode[1]) && lower[2]
            == ascii_lower(mode[2]) && lower[3] == ascii_lower(mode[3]));
        if lower[0] == 'p' && lower[1] == 'i' && lower[2] == 'p' && lower[3] == 'e' {
            assert(lower =~= "pipe"@);
        } else {
            assert(lower != "pipe"@);
        }
    }
    assert(ascii_lower_text(seq![]).len() == 0);
}

/// A path in a directory is the directory, one slash where the directory has none at its end and is
/// not empty, and the name.
pub proof fn law_path_is_directory_slash_name(dir: Seq<u8>, name: Seq<u8>)
    ensures
        ({
            let path = path_in(dir, name);
            let slash = path.len() - dir.len() - name.len();
            &&& slash == 0 || slash == 1
            &&& path.take(dir.len() as int) == dir
            &&& path.skip(dir.len() + slash) == name
            &&& slash == 0 <==> dir.len() == 0 || dir[dir.len() - 1] == 47
            &&& slash == 1 ==> path[dir.len() as int] == 47
        }),
{
    let path = path_in(dir, name);
    let slash = path.len() - dir.len() - name.len();
    assert(path.take(dir.len() as int) =~= dir);
    assert(path.skip(dir.len() + slash) =~= name);
}

/// The socket of a call is named `signal-call-`, the call id in decimal, and `.sock`.
pub proof fn law_socket_name_holds_the_call_id(call_id: u64)
    ensures
        ({
            let name = socket_name(call_id);
            let digits = name.subrange(12, name.len() - 5);
            &&& name.len() >= 18
            &&& name.take(12) == "signal-call-"@
            &&& name.skip(name.len() - 5) == ".sock"@
            &&& is_decimal_of(digits, call_id as nat)
        }),
{
    reveal_strlit("signal-call-");
    reveal_strlit(".sock");
    law_decimal_is_exact(call_id as nat);
    let name = socket_name(call_id);
    assert(name.take(12) =~= "signal-call-"@);
    assert(name.skip(name.len() - 5) =~= ".sock"@);
    assert(name.subrange(12, name.len() - 5) =~= decimal(call_id as nat));
}

/// A device is named by the config where it names one; otherwise by its base name, alone where
/// names are fixed, and otherwise with an underscore and the call id in decimal after it.
pub proof fn law_device_name_by_config_or_call(
    setting: Option<Seq<char>>,
    base: Seq<char>,
    call_id: u64,
    fixed_names: bool,
)
    ensures
        ({
            let name = device_name_of(setting, base, call_id, fixed_names);
            &&& setting matches Some(given) ==> name == given
            &&& setting is None && fixed_names ==> name == base
            &&& setting is None && !fixed_names ==> {
                &&& name.len() > base.len() + 1
                &&& name.take(base.len() as int) == base
                &&& name[base.len() as int] == '_'
                &&& is_decimal_of(name.skip(base.len() as int + 1), call_id as nat)
            }
        }),
{
    reveal_strlit("_");
    law_decimal_is_exact(call_id as nat);
    if setting is None && !fixed_names {
        let name = device_name_of(setting, base, call_id, fixed_names);
        assert(name.take(base.len() as int) =~= base);
        assert(name.skip(base.len() as int + 1) =~= decimal(call_id as nat));
    }
}

/// A setting that is there counts as its text, and one that is not as none.
pub proof fn law_setting_counts_as_its_text(setting: String)
    ensures
        optional_text(Some(setting)) == Some(setting@),
        optional_text(None) is None,
{
}

} // verus!
