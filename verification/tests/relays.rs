use backend::ids::PrinterId;
use backend::relays::PrinterRelays;

#[test]
fn one_relay_per_printer() {
    let mut relays = PrinterRelays::new();
    assert_eq!(relays.active_count(), 0);
    let p = PrinterId::new();
    assert!(relays.claim(p));
    assert!(!relays.claim(p), "un seul relais par imprimante");
    assert!(relays.is_active(p));
    assert_eq!(relays.active_count(), 1);
    relays.release(p);
    assert!(!relays.is_active(p));
    assert!(relays.claim(p));
}
