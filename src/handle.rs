use vstd::prelude::*;

verus! {

/// A handle in spec terms: the name it is known by, then where it is stored.
pub type HandleView = (Seq<char>, Seq<char>);

/// A record in the catalog that points at a stored file.
pub trait Stored: View<V = HandleView> + Sized {
    fn stored_path(&self) -> (r: &String)
        ensures
            r@ == self@.1,
    ;
}

/// One registered launcher entry.
#[derive(Debug)]
pub struct DesktopHandle {
    /// The application id: the stem of the stored file's name.
    pub appid: String,
    pub path: String,
}

/// One registered icon.
#[derive(Debug)]
pub struct IconHandle {
    pub icon_name: String,
    pub icon_path: String,
}

impl View for DesktopHandle {
    type V = HandleView;

    open spec fn view(&self) -> HandleView {
        (self.appid@, self.path@)
    }
}

impl View for IconHandle {
    type V = HandleView;

    open spec fn view(&self) -> HandleView {
        (self.icon_name@, self.icon_path@)
    }
}

impl Stored for DesktopHandle {
    fn stored_path(&self) -> (r: &String) {
        &self.path
    }
}

impl Stored for IconHandle {
    fn stored_path(&self) -> (r: &String) {
        &self.icon_path
    }
}

impl Clone for DesktopHandle {
    fn clone(&self) -> (r: Self)
        ensures
            r@ == self@,
    {
        DesktopHandle { appid: self.appid.clone(), path: self.path.clone() }
    }
}

impl Clone for IconHandle {
    fn clone(&self) -> (r: Self)
        ensures
            r@ == self@,
    {
        IconHandle { icon_name: self.icon_name.clone(), icon_path: self.icon_path.clone() }
    }
}

} // verus!
