//! Plain-English explanations of anomalies.
use vstd::prelude::*;

verus! {

/// What an anomaly check found, as far as the explanation needs it: which
/// resources are anomalous and which of those are extreme (a z-score
/// above 3).
#[derive(Debug, Clone, Copy, PartialEq, Eq, Structural)]
pub struct AnomalyFlags {
    pub memory_anomaly: bool,
    pub memory_extreme: bool,
    pub cpu_anomaly: bool,
    pub cpu_extreme: bool,
}

/// The sentence about an anomalous memory figure.
pub open spec fn memory_sentence(process: Seq<char>, extreme: bool) -> Seq<char> {
    if extreme {
        "Memory usage for '"@ + process + "' is extremely high compared to its normal behavior."@
    } else {
        "Memory usage for '"@ + process + "' is significantly higher than usual"@
    }
}

/// The sentence about an anomalous CPU figure.
pub open spec fn cpu_sentence(process: Seq<char>, extreme: bool) -> Seq<char> {
    if extreme {
        "CPU usage for '"@ + process + "' spiked far beyond its typical usage pattern."@
    } else {
        "CPU usage for '"@ + process + "' is noticeably higher than normal."@
    }
}

/// The sentence when nothing is anomalous.
pub open spec fn normal_sentence(process: Seq<char>) -> Seq<char> {
    "'"@ + process + "' is behaving within its normal historical range."@
}

/// The explanations: the memory sentence if memory is anomalous, then the
/// CPU sentence if CPU is; the normal sentence alone when neither is.
pub open spec fn explanations(process: Seq<char>, flags: AnomalyFlags) -> Seq<Seq<char>> {
    let mem = if flags.memory_anomaly {
        seq![memory_sentence(process, flags.memory_extreme)]
    } else {
        Seq::empty()
    };
    let cpu = if flags.cpu_anomaly {
        seq![cpu_sentence(process, flags.cpu_extreme)]
    } else {
        Seq::empty()
    };
    if mem + cpu == Seq::<Seq<char>>::empty() {
        seq![normal_sentence(process)]
    } else {
        mem + cpu
    }
}

/// Each anomalous resource gets its own sentence, whatever the other flags
/// say: memory first, then CPU, the wording set by whether that resource
/// is extreme. The normal-range sentence comes exactly when neither
/// resource is anomalous, and then alone.
pub proof fn every_anomaly_is_explained(process: Seq<char>, flags: AnomalyFlags)
    ensures
        ({
            let lines = explanations(process, flags);
            let anomalies: int = (if flags.memory_anomaly { 1int } else { 0int }) + (if flags.cpu_anomaly {
                1int
            } else {
                0int
            });
            &&& anomalies > 0 ==> lines.len() == anomalies
            &&& flags.memory_anomaly && flags.memory_extreme ==> lines[0] == "Memory usage for '"@
                + process + "' is extremely high compared to its normal behavior."@
            &&& flags.memory_anomaly && !flags.memory_extreme ==> lines[0] == "Memory usage for '"@
                + process + "' is significantly higher than usual"@
            &&& flags.cpu_anomaly && flags.cpu_extreme ==> lines[lines.len() - 1] == "CPU usage for '"@
                + process + "' spiked far beyond its typical usage pattern."@
            &&& flags.cpu_anomaly && !flags.cpu_extreme ==> lines[lines.len() - 1] == "CPU usage for '"@
                + process + "' is noticeably higher than normal."@
            &&& (lines == seq!["'"@ + process + "' is behaving within its normal historical range."@])
                <==> (!flags.memory_anomaly && !flags.cpu_anomaly)
        }),
{
    reveal_strlit("'");
    reveal_strlit("Memory usage for '");
    reveal_strlit("CPU usage for '");
    let lines = explanations(process, flags);
    let normal = "'"@ + process + "' is behaving within its normal historical range."@;
    let mem = if flags.memory_anomaly {
        seq![memory_sentence(process, flags.memory_extreme)]
    } else {
        Seq::empty()
    };
    let cpu = if flags.cpu_anomaly {
        seq![cpu_sentence(process, flags.cpu_extreme)]
    } else {
        Seq::empty()
    };
    if flags.memory_anomaly || flags.cpu_anomaly {
        assert((mem + cpu).len() > 0);
        assert(mem + cpu != Seq::<Seq<char>>::empty());
        assert(lines == mem + cpu);
        assert(lines[0][0] != normal[0]);
        assert(lines != seq![normal]);
    } else {
        assert(mem + cpu =~= Seq::<Seq<char>>::empty());
    }
}

fn sentence(start: &str, process: &str, end: &str) -> (s: String)
    ensures
        s@ == start@ + process@ + end@,
{
    let mut s = String::from_str(start);
    s.append(process);
    s.append(end);
    s
}

/// Explains an anomaly check of `process` in plain English.
pub fn explain_anomaly(process: &str, flags: &AnomalyFlags) -> (lines: Vec<String>)
    ensures
        lines.deep_view() == explanations(process@, *flags),
        1 <= lines.len() <= 2,
{
    let mut lines: Vec<String> = Vec::new();
    if flags.memory_anomaly {
        if flags.memory_extreme {
            lines.push(
                sentence(
                    "Memory usage for '",
                    process,
                    "' is extremely high compared to its normal behavior.",
                ),
            );
        } else {
            lines.push(sentence("Memory usage for '", process, "' is significantly higher than usual"));
        }
    }
    if flags.cpu_anomaly {
        if flags.cpu_extreme {
            lines.push(
                sentence("CPU usage for '", process, "' spiked far beyond its typical usage pattern."),
            );
        } else {
            lines.push(sentence("CPU usage for '", process, "' is noticeably higher than normal."));
        }
    }
    let ghost found = lines.deep_view();
    if lines.len() == 0 {
        lines.push(sentence("'", process, "' is behaving within its normal historical range."));
    }
    proof {
        let mem = if flags.memory_anomaly {
            seq![memory_sentence(process@, flags.memory_extreme)]
        } else {
            Seq::empty()
        };
        let cpu = if flags.cpu_anomaly {
            seq![cpu_sentence(process@, flags.cpu_extreme)]
        } else {
            Seq::empty()
        };
        assert(found =~= mem + cpu);
        if found.len() == 0 {
            assert(lines.deep_view() =~= seq![normal_sentence(process@)]);
        } else {
            assert(mem + cpu != Seq::<Seq<char>>::empty());
        }
    }
    lines
}

} // verus!
