use pulse::alerts::{applescript_notification, powershell_notification, AlertManager};

#[test]
fn disabled_manager_sends_nothing() {
    let mut m = AlertManager::new(false, 300);
    assert!(!m.try_send_at("cpu_critical", 1000));
    assert!(!m.try_send_at("cpu_critical", 100_000));
}

#[test]
fn cooldown_suppresses_repeats() {
    let mut m = AlertManager::new(true, 300);
    assert!(m.try_send_at("memory_critical", 1000));
    assert!(!m.try_send_at("memory_critical", 1000));
    assert!(!m.try_send_at("memory_critical", 1299));
    // A suppressed attempt does not restart the cooldown.
    assert!(m.try_send_at("memory_critical", 1300));
    assert!(!m.try_send_at("memory_critical", 1599));
    assert!(m.try_send_at("memory_critical", 1600));
}

#[test]
fn categories_are_independent() {
    let mut m = AlertManager::new(true, 300);
    assert!(m.try_send_at("anomaly_firefox", 10));
    assert!(m.try_send_at("anomaly_chrome", 11));
    assert!(!m.try_send_at("anomaly_firefox", 12));
    assert!(!m.try_send_at("anomaly_chrome", 13));
    assert!(m.try_send_at("prediction_firefox", 14));
}

#[test]
fn zero_cooldown_always_sends() {
    let mut m = AlertManager::new(true, 0);
    assert!(m.try_send_at("c", 5));
    assert!(m.try_send_at("c", 5));
}

#[test]
fn huge_cooldown_wraps_to_negative() {
    // The cooldown is read as a signed number of seconds, as the original
    // `cooldown_secs as i64` does.
    let mut m = AlertManager::new(true, u64::MAX);
    assert!(m.try_send_at("c", 5));
    assert!(m.try_send_at("c", 5));
}

#[test]
fn notification_scripts_escape_quotes() {
    let title = "⚡ Pulse: \"High\" CPU";
    let body = "it's \"hot\"";
    assert_eq!(
        applescript_notification(title, body),
        format!(
            "display notification \"{}\" with title \"{}\"",
            body.replace('"', "\\\""),
            title.replace('"', "\\\""),
        )
    );
    assert_eq!(
        powershell_notification(title, body),
        format!(
            "Add-Type -AssemblyName System.Windows.Forms; \
             $n = New-Object System.Windows.Forms.NotifyIcon; \
             $n.Icon = [System.Drawing.SystemIcons]::Information; \
             $n.Visible = $true; \
             $n.ShowBalloonTip(5000, '{}', '{}', 'Info'); \
             Start-Sleep -Seconds 6; $n.Dispose()",
            title.replace('\'', "''"),
            body.replace('\'', "''"),
        )
    );
}

#[test]
fn sends_over_a_sequence_are_spaced_by_the_cooldown() {
    let mut m = AlertManager::new(true, 60);
    let attempts = [
        ("a", 0), ("b", 10), ("a", 30), ("a", 59), ("b", 65), ("a", 60), ("a", 61), ("b", 70),
        ("a", 119), ("a", 120), ("b", 200),
    ];
    let mut sent_a = Vec::new();
    let mut sent_b = Vec::new();
    for (c, t) in attempts {
        if m.try_send_at(c, t) {
            if c == "a" { sent_a.push(t) } else { sent_b.push(t) }
        }
    }
    assert_eq!(sent_a, vec![0, 60, 120]);
    assert_eq!(sent_b, vec![10, 70, 200]);
}

#[test]
fn enabled_flag_is_reported() {
    assert!(AlertManager::new(true, 0).alerts_enabled());
    assert!(!AlertManager::new(false, 0).alerts_enabled());
}
