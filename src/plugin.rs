use vstd::prelude::*;

verus! {

/// What the server plugin is started with: the server's configuration and the protocol.
pub struct PluginConfig<C, P> {
    pub server_config: C,
    pub protocol: P,
}

impl<C, P> PluginConfig<C, P> {
    pub fn new(server_config: C, protocol: P) -> (r: Self)
        ensures
            r.server_config == server_config,
            r.protocol == protocol,
    {
        PluginConfig { server_config, protocol }
    }
}

/// The server plugin; it holds its configuration until the host application builds it,
/// which takes the configuration out exactly once.
pub struct Plugin<C, P> {
    pub config: Option<PluginConfig<C, P>>,
}

impl<C, P> Plugin<C, P> {
    pub fn new(config: PluginConfig<C, P>) -> (r: Self)
        ensures
            r.config == Some(config),
    {
        Plugin { config: Some(config) }
    }

    /// Takes the configuration out; a second call finds nothing.
    pub fn take_config(&mut self) -> (r: Option<PluginConfig<C, P>>)
        ensures
            r == old(self).config,
            final(self).config is None,
    {
        let mut taken: Option<PluginConfig<C, P>> = None;
        core::mem::swap(&mut taken, &mut self.config);
        taken
    }
}

} // verus!
