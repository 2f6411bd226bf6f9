use cosmic_money::config::Config;
use cosmic_money::nav::{ContextPage, MenuAction, NavPage};

#[test]
fn nav_pages_in_order() {
    assert_eq!(
        NavPage::all(),
        vec![NavPage::Accounts, NavPage::Categories, NavPage::Transactions, NavPage::Settings]
    );
    assert_eq!(NavPage::default(), NavPage::Accounts);
}

#[test]
fn nav_titles() {
    assert_eq!(NavPage::Accounts.title(), "page_accounts");
    assert_eq!(NavPage::Welcome.title(), "page-welcome");
    assert_eq!(ContextPage::About.title(), "about");
    assert_eq!(MenuAction::About.context_page(), ContextPage::About);
}

#[test]
fn config_defaults() {
    let c = Config::default();
    assert!(!c.is_user_initialized);
    assert_eq!(c.currency_id, 1);
}
