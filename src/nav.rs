//! The pages of the application's navigation, and the other page selectors
//! that the ledger's front end keeps.

use vstd::prelude::*;

verus! {

/// A page of the navigation bar.
#[derive(Clone, Copy, Debug, PartialEq, Eq, Structural)]
pub enum NavPage {
    Accounts,
    Categories,
    Transactions,
    Settings,
    Welcome,
}

impl Default for NavPage {
    /// The accounts page.
    fn default() -> (r: NavPage)
        ensures
            r == NavPage::Accounts,
    {
        NavPage::Accounts
    }
}

/// The message id of the title of page `p`, to be looked up in the
/// translations.
pub open spec fn nav_title_id(p: NavPage) -> Seq<char> {
    match p {
        NavPage::Accounts => "page_accounts"@,
        NavPage::Categories => "page_categories"@,
        NavPage::Transactions => "page_transactions"@,
        NavPage::Settings => "page_settings"@,
        NavPage::Welcome => "page-welcome"@,
    }
}

impl NavPage {
    /// The message id of this page's title.
    pub fn title(&self) -> (r: &'static str)
        ensures
            r@ == nav_title_id(*self),
    {
        proof {
            reveal_strlit("page_accounts");
            reveal_strlit("page_categories");
            reveal_strlit("page_transactions");
            reveal_strlit("page_settings");
            reveal_strlit("page-welcome");
        }
        match self {
            NavPage::Accounts => "page_accounts",
            NavPage::Categories => "page_categories",
            NavPage::Transactions => "page_transactions",
            NavPage::Settings => "page_settings",
            NavPage::Welcome => "page-welcome",
        }
    }

    /// The pages shown in the navigation bar, in order. The welcome page is
    /// reached only before the ledger is initialized.
    pub fn all() -> (r: Vec<NavPage>)
        ensures
            r@ == seq![
                NavPage::Accounts,
                NavPage::Categories,
                NavPage::Transactions,
                NavPage::Settings,
            ],
    {
        let r = vec![
            NavPage::Accounts,
            NavPage::Categories,
            NavPage::Transactions,
            NavPage::Settings,
        ];
        proof {
            assert(r@ =~= seq![
                NavPage::Accounts,
                NavPage::Categories,
                NavPage::Transactions,
                NavPage::Settings,
            ]);
        }
        r
    }
}

/// A page of the context drawer.
#[derive(Clone, Copy, Debug, PartialEq, Eq, Structural)]
pub enum ContextPage {
    About,
}

impl Default for ContextPage {
    fn default() -> (r: ContextPage)
        ensures
            r == ContextPage::About,
    {
        ContextPage::About
    }
}

impl ContextPage {
    /// The message id of this drawer page's title.
    pub fn title(&self) -> (r: &'static str)
        ensures
            r@ == "about"@,
    {
        proof {
            reveal_strlit("about");
        }
        match self {
            ContextPage::About => "about",
        }
    }
}

/// An entry of the application menu.
#[derive(Clone, Copy, Debug, PartialEq, Eq, Structural)]
pub enum MenuAction {
    About,
}

impl MenuAction {
    /// The drawer page that this entry opens.
    pub fn context_page(&self) -> (r: ContextPage)
        ensures
            r == ContextPage::About,
    {
        match self {
            MenuAction::About => ContextPage::About,
        }
    }
}

/// What the movements page lists.
#[derive(Clone, Copy, Debug, PartialEq, Eq, Structural)]
pub enum ViewItem {
    Transactions,
    Transfers,
}

/// A message of the statistics page.
#[derive(Clone, Copy, Debug, PartialEq, Eq, Structural)]
pub enum StatisticsMessage {
    Update,
    PreviousMonth,
    NextMonth,
}

} // verus!
