//! Modal message state. A popup blocks normal command routing until it is
//! dismissed; it carries a title, body text, and an emphasis flag (failure
//! popups are emphasized, the help popup is not).

use vstd::prelude::*;

verus! {

/// Mathematical image of a popup.
#[verifier::ext_equal]
pub ghost struct PopupView {
    pub title: Seq<char>,
    pub text: Seq<char>,
    pub emphasis: bool,
}

/// Modal message state: title, body text, emphasis.
#[derive(Debug)]
pub struct Popup {
    pub title: String,
    pub text: String,
    pub emphasis: bool,
}

impl View for Popup {
    type V = PopupView;

    open spec fn view(&self) -> PopupView {
        PopupView { title: self.title@, text: self.text@, emphasis: self.emphasis }
    }
}

impl Popup {
    /// A popup with the given title and body.
    pub fn new(title: &str, text: &str, emphasis: bool) -> (r: Self)
        ensures
            r@ == (PopupView { title: title@, text: text@, emphasis }),
    {
        let r = Popup { title: title.to_owned(), text: text.to_owned(), emphasis: emphasis };
        assert(r@ =~= (PopupView { title: title@, text: text@, emphasis }));
        r
    }
}

} // verus!
