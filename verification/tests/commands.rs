use cedro::client::commands::CommandSink;

#[test]
fn sqt_normal_and_snapshot() {
    let mut s = CommandSink::new();
    s.subscribe_quote("PETR4", false);
    s.subscribe_quote("PETR4", true);
    assert_eq!(s.take_pending(), "SQT PETR4\nSQT PETR4 N\n");
}

#[test]
fn bqt_subscribe_and_unsubscribe() {
    let mut s = CommandSink::new();
    s.subscribe_book_detailed("PETR4");
    s.unsubscribe_book_detailed("PETR4");
    assert_eq!(s.take_pending(), "BQT PETR4\nUBQ PETR4\n");
}

#[test]
fn sab_with_snapshot_flag() {
    let mut s = CommandSink::new();
    s.subscribe_book_aggregated("PETR4", true);
    assert_eq!(s.take_pending(), "SAB PETR4 N\n");
}

#[test]
fn gqt_with_and_without_history() {
    let mut s = CommandSink::new();
    s.subscribe_trades("PETR4", None);
    s.subscribe_trades("PETR4", Some(50));
    assert_eq!(s.take_pending(), "GQT PETR4 S\nGQT PETR4 S 50\n");
}

#[test]
fn mqc_simple_and_extended_forms() {
    let mut s = CommandSink::new();
    s.list_market("Bovespa", 1, None);
    s.list_market("BMF", 7, Some(130));
    assert_eq!(s.take_pending(), "MQC Bovespa 1\nMQC BMF T 7 S 130\n");
}

#[test]
fn gpn_and_gtc_and_quit() {
    let mut s = CommandSink::new();
    s.list_brokers("BOVESPA");
    s.get_server_time();
    s.quit();
    assert_eq!(s.take_pending(), "GPN BOVESPA\nGTC\nQUIT\n");
}

#[test]
fn nem_subscribe_unsubscribe() {
    let mut s = CommandSink::new();
    s.subscribe_news("BOV");
    s.unsubscribe_news("BOV");
    assert_eq!(s.take_pending(), "NEM A BOV\nUNE BOV\n");
}
