//! The updater's settings and the hook commands configured per trigger.
use vstd::prelude::*;

use crate::model::{Feature, Product, Region};
use crate::text::text_eq;

verus! {

/// A command to run when the run reaches the outcome named `trigger`.
#[derive(Clone, Debug)]
pub struct CommandConfig {
    pub trigger: String,
    pub path: String,
    pub args: Vec<String>,
}

/// What to install and where, and the hook commands.
#[derive(Debug)]
pub struct Config {
    pub region: Region,
    pub product: Product,
    pub feature: Feature,
    pub output_directory: String,
    pub mega_folder: String,
    pub cmd: Vec<CommandConfig>,
}

/// The folder of the remote store that the default configuration reads.
pub open spec fn default_mega_folder() -> Seq<char> {
    "https://mega.nz/folder/XQdwFJTR#X8VNWdap7eKtIvmPbpW6sA"@
}

/// The hook of the default configuration: after an error, wait five seconds
/// so that the console stays readable.
pub open spec fn is_default_hook(c: CommandConfig) -> bool {
    &&& c.trigger@ == "after_error"@
    &&& c.path@ == "powershell"@
    &&& c.args@.map_values(|a: String| a@) == seq![
        "-command"@,
        "Start-Sleep"@,
        "-Seconds"@,
        "5"@,
    ]
}

impl Default for Config {
    fn default() -> (r: Config)
        ensures
            r.region == Region::Global,
            r.product == Product::WoW,
            r.feature == Feature::Net,
            r.output_directory@ == "download"@,
            r.mega_folder@ == default_mega_folder(),
            r.cmd@.len() == 1,
            is_default_hook(r.cmd@[0]),
    {
        let mut args: Vec<String> = Vec::new();
        args.push(String::from_str("-command"));
        args.push(String::from_str("Start-Sleep"));
        args.push(String::from_str("-Seconds"));
        args.push(String::from_str("5"));
        let hook = CommandConfig {
            trigger: String::from_str("after_error"),
            path: String::from_str("powershell"),
            args,
        };
        assert(hook.args@.map_values(|a: String| a@) =~= seq![
            "-command"@,
            "Start-Sleep"@,
            "-Seconds"@,
            "5"@,
        ]);
        let mut cmd: Vec<CommandConfig> = Vec::new();
        cmd.push(hook);
        Config {
            region: Region::Global,
            product: Product::WoW,
            feature: Feature::Net,
            output_directory: String::from_str("download"),
            mega_folder: String::from_str("https://mega.nz/folder/XQdwFJTR#X8VNWdap7eKtIvmPbpW6sA"),
            cmd,
        }
    }
}

/// The hooks among `cmd` whose trigger is `trigger`, in declaration order.
pub open spec fn hooks_for(cmd: Seq<CommandConfig>, trigger: Seq<char>) -> Seq<CommandConfig> {
    cmd.filter(|c: CommandConfig| c.trigger@ == trigger)
}

pub open spec fn derefs(v: Seq<&CommandConfig>) -> Seq<CommandConfig> {
    v.map_values(|c: &CommandConfig| *c)
}

impl Config {
    /// Every configured command whose trigger is exactly `trigger`, in the
    /// order of the configuration.
    pub fn commands_for_trigger(&self, trigger: &str) -> (r: Vec<&CommandConfig>)
        ensures
            derefs(r@) == hooks_for(self.cmd@, trigger@),
    {
        let mut r: Vec<&CommandConfig> = Vec::new();
        assert(derefs(r@) =~= hooks_for(self.cmd@.subrange(0, 0), trigger@));
        let mut i: usize = 0;
        while i < self.cmd.len()
            invariant
                i <= self.cmd@.len(),
                derefs(r@) == hooks_for(self.cmd@.subrange(0, i as int), trigger@),
            decreases self.cmd@.len() - i,
        {
            let c = &self.cmd[i];
            proof {
                let pred = |c: CommandConfig| c.trigger@ == trigger@;
                assert(self.cmd@.subrange(0, i + 1) =~= self.cmd@.subrange(0, i as int).push(
                    self.cmd@[i as int],
                ));
                self.cmd@.subrange(0, i as int).lemma_filter_push(self.cmd@[i as int], pred);
            }
            if text_eq(c.trigger.as_str(), trigger) {
                let ghost before = r@;
                r.push(c);
                assert(derefs(r@) =~= derefs(before).push(*c));
            }
            i = i + 1;
        }
        assert(self.cmd@.subrange(0, self.cmd@.len() as int) =~= self.cmd@);
        r
    }
}

} // verus!
