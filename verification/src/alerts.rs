//! Alert dispatch decisions with per-category cooldown timers, and the
//! text of the platform notification commands.
use vstd::prelude::*;
use crate::text::str_eq;

verus! {

// ── The cooldown rule ────────────────────────────────────────────────

/// Whether an alert of `category` at time `now` goes out, given the time
/// each category last went out: never when alerts are disabled, and
/// otherwise unless the category went out less than `cooldown_secs`
/// (read as a signed number of seconds) before `now`.
pub open spec fn admits(
    last_sent: Map<Seq<char>, i64>,
    cooldown_secs: u64,
    enabled: bool,
    category: Seq<char>,
    now: i64,
) -> bool {
    &&& enabled
    &&& !(last_sent.contains_key(category) && now - last_sent[category] < cooldown_secs as i64)
}

/// The send times after an attempt: the category's time becomes `now`
/// when the alert goes out; a suppressed attempt changes nothing.
pub open spec fn after_attempt(
    last_sent: Map<Seq<char>, i64>,
    cooldown_secs: u64,
    enabled: bool,
    category: Seq<char>,
    now: i64,
) -> Map<Seq<char>, i64> {
    if admits(last_sent, cooldown_secs, enabled, category, now) {
        last_sent.insert(category, now)
    } else {
        last_sent
    }
}

// ── Laws of the cooldown rule ────────────────────────────────────────

/// A disabled manager lets no alert out and records nothing.
pub proof fn disabled_sends_nothing(
    last_sent: Map<Seq<char>, i64>,
    cooldown_secs: u64,
    category: Seq<char>,
    now: i64,
)
    ensures
        !admits(last_sent, cooldown_secs, false, category, now),
        after_attempt(last_sent, cooldown_secs, false, category, now) == last_sent,
{
}

/// When alerts are enabled, the first alert of a category always goes out.
pub proof fn first_alert_goes_out(
    last_sent: Map<Seq<char>, i64>,
    cooldown_secs: u64,
    category: Seq<char>,
    now: i64,
)
    requires
        !last_sent.contains_key(category),
    ensures
        admits(last_sent, cooldown_secs, true, category, now),
{
}

/// Once an alert of a category has gone out at time `sent_at`, another
/// alert of the same category less than the cooldown later is suppressed.
pub proof fn repeat_within_cooldown_suppressed(
    last_sent: Map<Seq<char>, i64>,
    cooldown_secs: u64,
    enabled: bool,
    category: Seq<char>,
    sent_at: i64,
    later: i64,
)
    requires
        admits(last_sent, cooldown_secs, enabled, category, sent_at),
        sent_at <= later,
        later - sent_at < cooldown_secs,
        cooldown_secs <= i64::MAX,
    ensures
        !admits(
            after_attempt(last_sent, cooldown_secs, enabled, category, sent_at),
            cooldown_secs,
            enabled,
            category,
            later,
        ),
{
}

/// When alerts are enabled and at least the cooldown has passed since a
/// category's alert last went out, its next alert goes out.
pub proof fn alert_after_cooldown_goes_out(
    last_sent: Map<Seq<char>, i64>,
    cooldown_secs: u64,
    category: Seq<char>,
    now: i64,
)
    requires
        last_sent.contains_key(category),
        now - last_sent[category] >= cooldown_secs as i64,
    ensures
        admits(last_sent, cooldown_secs, true, category, now),
{
}

/// An attempt for one category never changes whether an alert of another
/// category goes out.
pub proof fn categories_are_independent(
    last_sent: Map<Seq<char>, i64>,
    cooldown_secs: u64,
    enabled: bool,
    first: Seq<char>,
    first_at: i64,
    second: Seq<char>,
    second_at: i64,
)
    requires
        first != second,
    ensures
        admits(
            after_attempt(last_sent, cooldown_secs, enabled, first, first_at),
            cooldown_secs,
            enabled,
            second,
            second_at,
        ) == admits(last_sent, cooldown_secs, enabled, second, second_at),
{
}

/// A suppressed attempt does not restart the cooldown: the recorded
/// times stay as they were.
pub proof fn suppressed_attempt_changes_nothing(
    last_sent: Map<Seq<char>, i64>,
    cooldown_secs: u64,
    enabled: bool,
    category: Seq<char>,
    now: i64,
)
    requires
        !admits(last_sent, cooldown_secs, enabled, category, now),
    ensures
        after_attempt(last_sent, cooldown_secs, enabled, category, now) == last_sent,
{
}

// ── Laws over a sequence of attempts ────────────────────────────────

/// The send times after a sequence of attempts, each a category and a
/// time, made in order.
pub open spec fn after_attempts(
    last_sent: Map<Seq<char>, i64>,
    cooldown_secs: u64,
    enabled: bool,
    attempts: Seq<(Seq<char>, i64)>,
) -> Map<Seq<char>, i64>
    decreases attempts.len(),
{
    if attempts.len() == 0 {
        last_sent
    } else {
        after_attempt(
            after_attempts(last_sent, cooldown_secs, enabled, attempts.drop_last()),
            cooldown_secs,
            enabled,
            attempts.last().0,
            attempts.last().1,
        )
    }
}

/// Whether the attempt at position `k` of a sequence goes out, after the
/// attempts before it.
pub open spec fn goes_out_at(
    last_sent: Map<Seq<char>, i64>,
    cooldown_secs: u64,
    enabled: bool,
    attempts: Seq<(Seq<char>, i64)>,
    k: int,
) -> bool {
    admits(
        after_attempts(last_sent, cooldown_secs, enabled, attempts.take(k)),
        cooldown_secs,
        enabled,
        attempts[k].0,
        attempts[k].1,
    )
}

/// Once attempt `i` of category `c` has gone out, every later state
/// records a time for `c` no earlier than attempt `i`'s (times do not
/// decrease along the sequence).
proof fn recorded_time_stays_at_least(
    last_sent: Map<Seq<char>, i64>,
    cooldown_secs: u64,
    enabled: bool,
    attempts: Seq<(Seq<char>, i64)>,
    i: int,
    m: int,
)
    requires
        0 <= i < m <= attempts.len(),
        forall|a: int, b: int| 0 <= a <= b < attempts.len() ==> attempts[a].1 <= attempts[b].1,
        goes_out_at(last_sent, cooldown_secs, enabled, attempts, i),
    ensures
        after_attempts(last_sent, cooldown_secs, enabled, attempts.take(m)).contains_key(
            attempts[i].0,
        ),
        after_attempts(last_sent, cooldown_secs, enabled, attempts.take(m))[attempts[i].0]
            >= attempts[i].1,
    decreases m,
{
    let c = attempts[i].0;
    assert(attempts.take(m).drop_last() =~= attempts.take(m - 1));
    assert(attempts.take(m).last() == attempts[m - 1]);
    if m > i + 1 {
        recorded_time_stays_at_least(last_sent, cooldown_secs, enabled, attempts, i, m - 1);
        assert(attempts[i].1 <= attempts[m - 1].1);
    }
}

/// Anti-spam: in any sequence of attempts at non-decreasing times, two
/// attempts of one category that both go out are at least the cooldown
/// (read as a signed number of seconds) apart.
pub proof fn sends_of_a_category_are_spaced(
    last_sent: Map<Seq<char>, i64>,
    cooldown_secs: u64,
    enabled: bool,
    attempts: Seq<(Seq<char>, i64)>,
    i: int,
    j: int,
)
    requires
        0 <= i < j < attempts.len(),
        forall|a: int, b: int| 0 <= a <= b < attempts.len() ==> attempts[a].1 <= attempts[b].1,
        attempts[i].0 == attempts[j].0,
        goes_out_at(last_sent, cooldown_secs, enabled, attempts, i),
        goes_out_at(last_sent, cooldown_secs, enabled, attempts, j),
    ensures
        attempts[j].1 - attempts[i].1 >= cooldown_secs as i64,
{
    recorded_time_stays_at_least(last_sent, cooldown_secs, enabled, attempts, i, j);
}

/// Whether two send records agree on category `c`.
pub open spec fn agree_on(a: Map<Seq<char>, i64>, b: Map<Seq<char>, i64>, c: Seq<char>) -> bool {
    &&& a.contains_key(c) == b.contains_key(c)
    &&& a.contains_key(c) ==> a[c] == b[c]
}

/// Whether an attempt is of category `c`.
pub open spec fn of_category(c: Seq<char>) -> spec_fn((Seq<char>, i64)) -> bool {
    |a: (Seq<char>, i64)| a.0 == c
}

/// What a sequence of attempts records for category `c` depends only on
/// the attempts of `c`.
proof fn record_depends_on_own_attempts(
    last_sent: Map<Seq<char>, i64>,
    cooldown_secs: u64,
    enabled: bool,
    attempts: Seq<(Seq<char>, i64)>,
    c: Seq<char>,
)
    ensures
        agree_on(
            after_attempts(last_sent, cooldown_secs, enabled, attempts),
            after_attempts(last_sent, cooldown_secs, enabled, attempts.filter(of_category(c))),
            c,
        ),
    decreases attempts.len(),
{
    reveal_with_fuel(Seq::filter, 1);
    if attempts.len() > 0 {
        record_depends_on_own_attempts(
            last_sent,
            cooldown_secs,
            enabled,
            attempts.drop_last(),
            c,
        );
        let rest = attempts.drop_last().filter(of_category(c));
        if attempts.last().0 == c {
            assert(attempts.filter(of_category(c)) == rest.push(attempts.last()));
            assert(rest.push(attempts.last()).drop_last() =~= rest);
        } else {
            assert(attempts.filter(of_category(c)) == rest);
        }
    }
}

/// Categories are independent over any sequence: whether an attempt of
/// category `c` goes out is the same as if the attempts of all other
/// categories had never been made.
pub proof fn other_categories_never_matter(
    last_sent: Map<Seq<char>, i64>,
    cooldown_secs: u64,
    enabled: bool,
    attempts: Seq<(Seq<char>, i64)>,
    c: Seq<char>,
    now: i64,
)
    ensures
        admits(after_attempts(last_sent, cooldown_secs, enabled, attempts), cooldown_secs, enabled, c, now)
            == admits(
            after_attempts(last_sent, cooldown_secs, enabled, attempts.filter(of_category(c))),
            cooldown_secs,
            enabled,
            c,
            now,
        ),
{
    record_depends_on_own_attempts(last_sent, cooldown_secs, enabled, attempts, c);
}

// ── The record of send times ────────────────────────────────────────

/// Whether entry `i` records category `c`.
spec fn holds_at(entries: Seq<(String, i64)>, c: Seq<char>, i: int) -> bool {
    0 <= i < entries.len() && entries[i].0@ == c
}

/// Whether no category is recorded twice.
spec fn distinct_categories(entries: Seq<(String, i64)>) -> bool {
    forall|i: int, j: int| 0 <= i < j < entries.len() ==> entries[i].0@ != entries[j].0@
}

/// The send time each recorded category maps to.
spec fn record_of(entries: Seq<(String, i64)>) -> Map<Seq<char>, i64> {
    Map::new(
        |c: Seq<char>| exists|i: int| holds_at(entries, c, i),
        |c: Seq<char>| entries[choose|i: int| holds_at(entries, c, i)].1,
    )
}

/// Writing `now` for `category` (by replacing its entry or adding one),
/// while every other category keeps its entry, inserts `category ↦ now`
/// into the record.
proof fn record_after_write(
    before: Seq<(String, i64)>,
    after: Seq<(String, i64)>,
    category: Seq<char>,
    now: i64,
    n: int,
)
    requires
        distinct_categories(before),
        distinct_categories(after),
        holds_at(after, category, n),
        after[n].1 == now,
        forall|c: Seq<char>, j: int|
            c != category && #[trigger] holds_at(after, c, j) ==> holds_at(before, c, j)
                && after[j].1 == before[j].1,
        forall|c: Seq<char>, j: int|
            c != category && #[trigger] holds_at(before, c, j) ==> holds_at(after, c, j),
    ensures
        record_of(after) == record_of(before).insert(category, now),
{
    let m = record_of(after);
    let o = record_of(before);
    assert forall|c: Seq<char>| #![auto] m.contains_key(c) == o.insert(category, now).contains_key(c)
        by {
        if m.contains_key(c) && c != category {
            let w = choose|j: int| holds_at(after, c, j);
            assert(holds_at(before, c, w));
        }
        if o.contains_key(c) && c != category {
            let w = choose|j: int| holds_at(before, c, j);
            assert(holds_at(after, c, w));
        }
        if c == category {
            assert(holds_at(after, c, n));
        }
    }
    assert forall|c: Seq<char>| #![auto] m.contains_key(c) implies m[c] == o.insert(category, now)[c]
        by {
        let w = choose|j: int| holds_at(after, c, j);
        if c == category {
            assert(w == n);
        } else {
            assert(holds_at(before, c, w));
            let v = choose|j: int| holds_at(before, c, j);
            assert(v == w);
        }
    }
    assert(m =~= o.insert(category, now));
}

/// Manages alert dispatching with cooldown to prevent spam.
pub struct AlertManager {
    /// Each category that has gone out, with the time it last went out;
    /// no category appears twice. A list rather than a `HashMap<String, _>`:
    /// vstd gives `String` keys no key model, so nothing could be proved of
    /// such a map's lookups and inserts.
    last_alert: Vec<(String, i64)>,
    cooldown_secs: u64,
    enabled: bool,
}

impl AlertManager {
    #[verifier::type_invariant]
    spec fn categories_distinct(&self) -> bool {
        distinct_categories(self.last_alert@)
    }

    spec fn holds(&self, category: Seq<char>, i: int) -> bool {
        holds_at(self.last_alert@, category, i)
    }

    /// The time each category last went out.
    pub closed spec fn last_sent(&self) -> Map<Seq<char>, i64> {
        record_of(self.last_alert@)
    }

    /// The cooldown, in seconds.
    pub closed spec fn cooldown(&self) -> u64 {
        self.cooldown_secs
    }

    /// Whether alerts are enabled.
    pub closed spec fn is_enabled(&self) -> bool {
        self.enabled
    }

    /// A manager that has sent nothing yet.
    pub fn new(enabled: bool, cooldown_secs: u64) -> (m: Self)
        ensures
            m.last_sent() == Map::<Seq<char>, i64>::empty(),
            m.cooldown() == cooldown_secs,
            m.is_enabled() == enabled,
    {
        let m = AlertManager { last_alert: Vec::new(), cooldown_secs, enabled };
        assert(m.last_sent() =~= Map::<Seq<char>, i64>::empty());
        m
    }

    /// Whether alerts are enabled.
    pub fn alerts_enabled(&self) -> (r: bool)
        ensures
            r == self.is_enabled(),
    {
        self.enabled
    }

    /// Finds the entry of `category`.
    fn position(&self, category: &str) -> (r: Option<usize>)
        ensures
            match r {
                Some(i) => self.holds(category@, i as int),
                None => forall|i: int| !self.holds(category@, i),
            },
    {
        let mut i: usize = 0;
        while i < self.last_alert.len()
            invariant
                i <= self.last_alert.len(),
                forall|j: int| 0 <= j < i ==> !self.holds(category@, j),
            decreases self.last_alert.len() - i,
        {
            if str_eq(self.last_alert[i].0.as_str(), category) {
                return Some(i);
            }
            i = i + 1;
        }
        None
    }

    /// Decides whether an alert of `category` goes out at time `now`, and
    /// records the time when it does. Returns `true` when the alert goes out.
    /// The time elapsed since the last alert is computed exactly, without
    /// wrapping.
    pub fn try_send_at(&mut self, category: &str, now: i64) -> (sent: bool)
        ensures
            sent == admits(
                old(self).last_sent(),
                old(self).cooldown(),
                old(self).is_enabled(),
                category@,
                now,
            ),
            final(self).last_sent() == after_attempt(
                old(self).last_sent(),
                old(self).cooldown(),
                old(self).is_enabled(),
                category@,
                now,
            ),
            final(self).cooldown() == old(self).cooldown(),
            final(self).is_enabled() == old(self).is_enabled(),
    {
        proof {
            use_type_invariant(&*self);
        }
        let ghost old_map = self.last_sent();
        if !self.enabled {
            return false;
        }
        match self.position(category) {
            Some(i) => {
                let last = self.last_alert[i].1;
                proof {
                    assert(old_map.contains_key(category@));
                    let c = choose|j: int| self.holds(category@, j);
                    assert(c == i);
                    assert(old_map[category@] == last);
                }
                if (now as i128) - (last as i128) < (self.cooldown_secs as i64) as i128 {
                    return false;
                }
                let key = self.last_alert[i].0.clone();
                let mut entries: Vec<(String, i64)> = Vec::new();
                std::mem::swap(&mut entries, &mut self.last_alert);
                entries.set(i, (key, now));
                proof {
                    assert forall|x: int, y: int| 0 <= x < y < entries.len() implies entries[x].0@
                        != entries[y].0@ by {
                        assert(entries[x].0@ == old(self).last_alert[x].0@);
                        assert(entries[y].0@ == old(self).last_alert[y].0@);
                    }
                    record_after_write(old(self).last_alert@, entries@, category@, now, i as int);
                }
                self.last_alert = entries;
                true
            },
            None => {
                proof {
                    if old_map.contains_key(category@) {
                        let w = choose|j: int| holds_at(old(self).last_alert@, category@, j);
                        assert(old(self).holds(category@, w));
                    }
                }
                let key = String::from_str(category);
                let mut entries: Vec<(String, i64)> = Vec::new();
                std::mem::swap(&mut entries, &mut self.last_alert);
                entries.push((key, now));
                proof {
                    assert forall|a: int, b: int| 0 <= a < b < entries.len() implies entries[a].0@
                        != entries[b].0@ by {
                        if b == entries.len() - 1 {
                            assert(!old(self).holds(category@, a));
                        } else {
                            assert(old(self).last_alert[a] == entries[a]);
                        }
                    }
                }
                proof {
                    record_after_write(
                        old(self).last_alert@,
                        entries@,
                        category@,
                        now,
                        entries.len() - 1,
                    );
                }
                self.last_alert = entries;
                true
            },
        }
    }
}

// ── Notification commands ────────────────────────────────────────────

/// `text` with every `target` character replaced by `replacement`.
pub open spec fn replace_char(text: Seq<char>, target: char, replacement: Seq<char>) -> Seq<char>
    decreases text.len(),
{
    if text.len() == 0 {
        Seq::empty()
    } else {
        replace_char(text.drop_last(), target, replacement) + if text.last() == target {
            replacement
        } else {
            seq![text.last()]
        }
    }
}

/// Appends `text` with every `target` character replaced by `replacement`.
fn push_replaced(s: &mut String, text: &str, target: char, replacement: &str)
    ensures
        final(s)@ == old(s)@ + replace_char(text@, target, replacement@),
{
    let n = text.unicode_len();
    let mut i: usize = 0;
    while i < n
        invariant
            n == text@.len(),
            i <= n,
            s@ == old(s)@ + replace_char(text@.subrange(0, i as int), target, replacement@),
        decreases n - i,
    {
        let c = text.get_char(i);
        if c == target {
            s.append(replacement);
        } else {
            s.push(c);
        }
        assert(text@.subrange(0, i + 1).drop_last() =~= text@.subrange(0, i as int));
        i = i + 1;
        assert(s@ =~= old(s)@ + replace_char(text@.subrange(0, i as int), target, replacement@));
    }
    assert(text@.subrange(0, n as int) =~= text@);
}

/// The AppleScript that shows a notification: double quotes in the title
/// and the body are escaped with a backslash.
pub open spec fn applescript_text(title: Seq<char>, body: Seq<char>) -> Seq<char> {
    "display notification \""@ + replace_char(body, '"', "\\\""@) + "\" with title \""@
        + replace_char(title, '"', "\\\""@) + "\""@
}

/// The AppleScript that shows a notification (macOS).
pub fn applescript_notification(title: &str, body: &str) -> (script: String)
    ensures
        script@ == applescript_text(title@, body@),
{
    let mut s = String::new();
    s.append("display notification \"");
    push_replaced(&mut s, body, '"', "\\\"");
    s.append("\" with title \"");
    push_replaced(&mut s, title, '"', "\\\"");
    s.append("\"");
    assert(s@ =~= applescript_text(title@, body@));
    s
}

/// The PowerShell command that shows a balloon notification: single
/// quotes in the title and the body are doubled.
pub open spec fn powershell_text(title: Seq<char>, body: Seq<char>) -> Seq<char> {
    "Add-Type -AssemblyName System.Windows.Forms; $n = New-Object System.Windows.Forms.NotifyIcon; $n.Icon = [System.Drawing.SystemIcons]::Information; $n.Visible = $true; $n.ShowBalloonTip(5000, '"@
        + replace_char(title, '\'', "''"@) + "', '"@ + replace_char(body, '\'', "''"@)
        + "', 'Info'); Start-Sleep -Seconds 6; $n.Dispose()"@
}

/// The PowerShell command that shows a balloon notification (Windows).
pub fn powershell_notification(title: &str, body: &str) -> (command: String)
    ensures
        command@ == powershell_text(title@, body@),
{
    let mut s = String::new();
    s.append("Add-Type -AssemblyName System.Windows.Forms; $n = New-Object System.Windows.Forms.NotifyIcon; $n.Icon = [System.Drawing.SystemIcons]::Information; $n.Visible = $true; $n.ShowBalloonTip(5000, '");
    push_replaced(&mut s, title, '\'', "''");
    s.append("', '");
    push_replaced(&mut s, body, '\'', "''");
    s.append("', 'Info'); Start-Sleep -Seconds 6; $n.Dispose()");
    assert(s@ =~= powershell_text(title@, body@));
    s
}

} // verus!
