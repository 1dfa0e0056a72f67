//! Help text of the command line.

use crate::text::push_str;
use vstd::prelude::*;

verus! {

/// The help text shown after the options of the `start` and `run` commands,
/// with `cmd` the command's name.
pub open spec fn after_text(cmd: Seq<char>) -> Seq<char> {
    "EXAMPLES:\n    The --default-args argument or the 'CUSTOM_ARGS' arguments are mutually exclusive. That is, you\n    can either use --default-args OR specify custom arguments, but not both.\n\n    Examples:\n        $ paperd "@ + cmd + " -d 10G\n    OR\n        $ paperd "@ + cmd
        + " --default-args 2G\n    OR\n        $ paperd "@ + cmd + " -- -Xmx5G -Xms5G\n\nCONFIG FILE:\n    You may pass options to this command using a JSON configuration file instead of command line\n    arguments using the --config-file argument. When using this argument the config file values\n    have lower precedence than the other command line arguments, so any other arguments specified\n    will effectively override any configuration values present in the file. The config file must be\n    a valid JSON file with the following keys. All keys are optional.\n\n    * jvm        | This is equivalent to the --jvm argument.\n    * jarFile    | This is equivalent to the --jar argument.\n    * workingDir | This is equivalent to the -w or --working-dir argument.\n    * jvmArgs    | This is equivalent to the CUSTOM_ARGS argument.\n    * serverArgs | This has no equivalent argument. This has the same format as the jvmArgs or\n                   CUSTOM_ARGS configuration, but specifies server arguments instead of JVM\n                   arguments such as --world-dir or --port.\n\n    Example JSON file:\n    {\n        \"jarFile\": \"../some/global/paperclip.jar\",\n        \"workingDir\": \"/minecraft/servers/paper\",\n        \"jvmArgs\": [\"-Xmx5G\", \"-Xms5G\"],\n        \"serverArgs\": [\"--port\", \"22222\"]\n    }"@
}

/// The help text shown after the options of the command `command_text`.
pub fn run_after_text(command_text: &str) -> (r: String)
    ensures
        r@ == after_text(command_text@),
{
    let mut out = "EXAMPLES:\n    The --default-args argument or the 'CUSTOM_ARGS' arguments are mutually exclusive. That is, you\n    can either use --default-args OR specify custom arguments, but not both.\n\n    Examples:\n        $ paperd ".to_owned();
    push_str(&mut out, command_text);
    push_str(&mut out, " -d 10G\n    OR\n        $ paperd ");
    push_str(&mut out, command_text);
    push_str(&mut out, " --default-args 2G\n    OR\n        $ paperd ");
    push_str(&mut out, command_text);
    push_str(&mut out, " -- -Xmx5G -Xms5G\n\nCONFIG FILE:\n    You may pass options to this command using a JSON configuration file instead of command line\n    arguments using the --config-file argument. When using this argument the config file values\n    have lower precedence than the other command line arguments, so any other arguments specified\n    will effectively override any configuration values present in the file. The config file must be\n    a valid JSON file with the following keys. All keys are optional.\n\n    * jvm        | This is equivalent to the --jvm argument.\n    * jarFile    | This is equivalent to the --jar argument.\n    * workingDir | This is equivalent to the -w or --working-dir argument.\n    * jvmArgs    | This is equivalent to the CUSTOM_ARGS argument.\n    * serverArgs | This has no equivalent argument. This has the same format as the jvmArgs or\n                   CUSTOM_ARGS configuration, but specifies server arguments instead of JVM\n                   arguments such as --world-dir or --port.\n\n    Example JSON file:\n    {\n        \"jarFile\": \"../some/global/paperclip.jar\",\n        \"workingDir\": \"/minecraft/servers/paper\",\n        \"jvmArgs\": [\"-Xmx5G\", \"-Xms5G\"],\n        \"serverArgs\": [\"--port\", \"22222\"]\n    }");
    out
}

} // verus!
