use vstd::prelude::*;

verus! {

/// Error returned when a provider of the same kind has already been registered.
#[derive(Debug)]
pub struct AlreadyExist;

/// Marker for types that can be stored in a [`Configuration`] registry.
pub trait ConfigurationProvider {}

/// A registry holding at most one configuration provider of kind `T`.
///
/// Registration is first-write-wins: a second `provide` call is rejected
/// with [`AlreadyExist`] and leaves the stored provider untouched.
pub struct Configuration<T: ConfigurationProvider> {
    provider: Option<T>,
}

impl<T: ConfigurationProvider> Configuration<T> {
    /// The provider currently held, if any.
    pub closed spec fn stored(&self) -> Option<T> {
        self.provider
    }

    /// Creates an empty registry.
    pub fn new() -> (r: Self)
        ensures
            r.stored() is None,
    {
        Self { provider: None }
    }

    /// Returns a copy of the stored provider, or `None` when nothing was registered.
    pub fn of(&self) -> (r: Option<T>) where T: Clone
        ensures
            r is Some <==> self.stored() is Some,
            r matches Some(p) ==> cloned(self.stored()->Some_0, p),
    {
        match &self.provider {
            Some(p) => Some(p.clone()),
            None => None,
        }
    }

    /// The number of registered providers: one once `provide` has succeeded, else zero.
    pub fn len(&self) -> (r: usize)
        ensures
            r == if self.stored() is Some { 1int } else { 0int },
    {
        match &self.provider {
            Some(_) => 1,
            None => 0,
        }
    }

    /// Registers a provider. Fails with [`AlreadyExist`] when one is already held,
    /// keeping the earlier registration.
    pub fn provide(&mut self, provider: T) -> (r: Result<&Self, AlreadyExist>)
        ensures
            old(self).stored() is Some ==> r is Err && final(self).stored() == old(self).stored(),
            old(self).stored() is None ==> r is Ok && final(self).stored() == Some(provider),
    {
        if self.provider.is_some() {
            return Err(AlreadyExist);
        }
        self.provider = Some(provider);
        Ok(self)
    }
}

/// Baseline settings for driving the player.
#[derive(Clone)]
pub struct BaseSettings {
    pub api_key: Option<String>,
    pub mpv_path: Option<String>,
    pub mpv_args: Option<String>,
}

impl ConfigurationProvider for BaseSettings {}

impl Default for BaseSettings {
    /// The defaults: no key, the player found on the search path, audio only.
    fn default() -> (r: Self)
        ensures
            r.api_key is None,
            r.mpv_path matches Some(p) && p@ == "mpv"@,
            r.mpv_args matches Some(a) && a@ == "--no-video"@,
    {
        Self {
            api_key: None,
            mpv_path: Some("mpv".to_owned()),
            mpv_args: Some("--no-video".to_owned()),
        }
    }
}

} // verus!
