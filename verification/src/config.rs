//! Configuration: layered sources merged into one immutable snapshot.

use vstd::prelude::*;

verus! {

/// Why no snapshot could be made of the configuration sources.
#[derive(Debug, Clone, Copy, PartialEq, Eq, Structural)]
pub enum ConfigError {
    /// No source names the host of the backing store.
    MissingHost,
    /// The smallest pool size asked for is larger than the largest.
    InvalidPoolBounds,
}

/// What one configuration source provides. A setting that the source does not
/// mention is `None`.
#[derive(Debug, Clone)]
pub struct ConfigLayer {
    pub host: Option<String>,
    pub pool_min: Option<u32>,
    pub pool_max: Option<usize>,
    pub connect_timeout: Option<u64>,
    pub idle_timeout: Option<u64>,
    pub extensions: Option<Vec<String>>,
}

/// The lowest source: a value for every setting but the host, which has no
/// sensible default and may be left open.
#[derive(Debug, Clone)]
pub struct Defaults {
    pub host: Option<String>,
    pub pool_min: u32,
    pub pool_max: usize,
    pub connect_timeout: u64,
    pub idle_timeout: Option<u64>,
    pub extensions: Option<Vec<String>>,
}

/// The resolved configuration. It is made once, by [`resolve`], and never
/// changes afterwards; every component reads it through the getters.
#[derive(Debug, Clone)]
pub struct ServiceConfig {
    host: String,
    pool_min: u32,
    pool_max: usize,
    connect_timeout: u64,
    idle_timeout: Option<u64>,
    extensions: Option<Vec<String>>,
}

pub struct ConfigLayerView {
    pub host: Option<Seq<char>>,
    pub pool_min: Option<u32>,
    pub pool_max: Option<usize>,
    pub connect_timeout: Option<u64>,
    pub idle_timeout: Option<u64>,
    pub extensions: Option<Seq<Seq<char>>>,
}

pub struct DefaultsView {
    pub host: Option<Seq<char>>,
    pub pool_min: u32,
    pub pool_max: usize,
    pub connect_timeout: u64,
    pub idle_timeout: Option<u64>,
    pub extensions: Option<Seq<Seq<char>>>,
}

pub struct ServiceConfigView {
    pub host: Seq<char>,
    pub pool_min: u32,
    pub pool_max: usize,
    pub connect_timeout: u64,
    pub idle_timeout: Option<u64>,
    pub extensions: Option<Seq<Seq<char>>>,
}

/// The value of a setting that two sources may give: the upper source wins
/// wherever it mentions the setting.
pub open spec fn prefer<T>(upper: Option<T>, lower: Option<T>) -> Option<T> {
    if upper is Some {
        upper
    } else {
        lower
    }
}

/// The value of a setting that has a default.
pub open spec fn or_default<T>(given: Option<T>, default: T) -> T {
    match given {
        Some(v) => v,
        None => default,
    }
}

impl View for ConfigLayer {
    type V = ConfigLayerView;

    open spec fn view(&self) -> ConfigLayerView {
        ConfigLayerView {
            host: self.host.deep_view(),
            pool_min: self.pool_min,
            pool_max: self.pool_max,
            connect_timeout: self.connect_timeout,
            idle_timeout: self.idle_timeout,
            extensions: self.extensions.deep_view(),
        }
    }
}

impl View for Defaults {
    type V = DefaultsView;

    open spec fn view(&self) -> DefaultsView {
        DefaultsView {
            host: self.host.deep_view(),
            pool_min: self.pool_min,
            pool_max: self.pool_max,
            connect_timeout: self.connect_timeout,
            idle_timeout: self.idle_timeout,
            extensions: self.extensions.deep_view(),
        }
    }
}

impl View for ServiceConfig {
    type V = ServiceConfigView;

    closed spec fn view(&self) -> ServiceConfigView {
        ServiceConfigView {
            host: self.host@,
            pool_min: self.pool_min,
            pool_max: self.pool_max,
            connect_timeout: self.connect_timeout,
            idle_timeout: self.idle_timeout,
            extensions: self.extensions.deep_view(),
        }
    }
}

impl ConfigLayerView {
    /// This layer with `upper` laid over it.
    pub open spec fn overlay(self, upper: ConfigLayerView) -> ConfigLayerView {
        ConfigLayerView {
            host: prefer(upper.host, self.host),
            pool_min: prefer(upper.pool_min, self.pool_min),
            pool_max: prefer(upper.pool_max, self.pool_max),
            connect_timeout: prefer(upper.connect_timeout, self.connect_timeout),
            idle_timeout: prefer(upper.idle_timeout, self.idle_timeout),
            extensions: prefer(upper.extensions, self.extensions),
        }
    }
}

impl DefaultsView {
    /// The defaults with one layer laid over them: still a value for every
    /// setting but, perhaps, the host.
    pub open spec fn overlay(self, upper: ConfigLayerView) -> DefaultsView {
        DefaultsView {
            host: prefer(upper.host, self.host),
            pool_min: or_default(upper.pool_min, self.pool_min),
            pool_max: or_default(upper.pool_max, self.pool_max),
            connect_timeout: or_default(upper.connect_timeout, self.connect_timeout),
            idle_timeout: prefer(upper.idle_timeout, self.idle_timeout),
            extensions: prefer(upper.extensions, self.extensions),
        }
    }

    /// The snapshot that these merged settings stand for, or the reason why
    /// they stand for none. A missing host is reported before wrong bounds.
    pub open spec fn checked(self) -> Result<ServiceConfigView, ConfigError> {
        if self.host is None {
            Err(ConfigError::MissingHost)
        } else if self.pool_min > self.pool_max {
            Err(ConfigError::InvalidPoolBounds)
        } else {
            Ok(
                ServiceConfigView {
                    host: self.host->0,
                    pool_min: self.pool_min,
                    pool_max: self.pool_max,
                    connect_timeout: self.connect_timeout,
                    idle_timeout: self.idle_timeout,
                    extensions: self.extensions,
                },
            )
        }
    }
}

/// What `resolve` returns on three sources: the defaults, the file laid over
/// them, the environment laid over both.
pub open spec fn resolved(defaults: DefaultsView, file: ConfigLayerView, env: ConfigLayerView) -> Result<
    ServiceConfigView,
    ConfigError,
> {
    defaults.overlay(file).overlay(env).checked()
}

impl ConfigLayer {
    /// A source that mentions no setting.
    pub fn empty() -> (layer: ConfigLayer)
        ensures
            layer@ == (ConfigLayerView {
                host: None,
                pool_min: None,
                pool_max: None,
                connect_timeout: None,
                idle_timeout: None,
                extensions: None,
            }),
    {
        ConfigLayer {
            host: None,
            pool_min: None,
            pool_max: None,
            connect_timeout: None,
            idle_timeout: None,
            extensions: None,
        }
    }

    /// Lays `upper` over this layer: each setting that `upper` mentions takes
    /// its value from there, every other one keeps the value it has here.
    pub fn overlay(self, upper: ConfigLayer) -> (merged: ConfigLayer)
        ensures
            merged@ == self@.overlay(upper@),
    {
        ConfigLayer {
            host: if upper.host.is_some() {
                upper.host
            } else {
                self.host
            },
            pool_min: if upper.pool_min.is_some() {
                upper.pool_min
            } else {
                self.pool_min
            },
            pool_max: if upper.pool_max.is_some() {
                upper.pool_max
            } else {
                self.pool_max
            },
            connect_timeout: if upper.connect_timeout.is_some() {
                upper.connect_timeout
            } else {
                self.connect_timeout
            },
            idle_timeout: if upper.idle_timeout.is_some() {
                upper.idle_timeout
            } else {
                self.idle_timeout
            },
            extensions: if upper.extensions.is_some() {
                upper.extensions
            } else {
                self.extensions
            },
        }
    }
}

impl Defaults {
    /// Lays `upper` over the defaults.
    pub fn overlay(self, upper: ConfigLayer) -> (merged: Defaults)
        ensures
            merged@ == self@.overlay(upper@),
    {
        Defaults {
            host: if upper.host.is_some() {
                upper.host
            } else {
                self.host
            },
            pool_min: if upper.pool_min.is_some() {
                upper.pool_min.unwrap()
            } else {
                self.pool_min
            },
            pool_max: if upper.pool_max.is_some() {
                upper.pool_max.unwrap()
            } else {
                self.pool_max
            },
            connect_timeout: if upper.connect_timeout.is_some() {
                upper.connect_timeout.unwrap()
            } else {
                self.connect_timeout
            },
            idle_timeout: if upper.idle_timeout.is_some() {
                upper.idle_timeout
            } else {
                self.idle_timeout
            },
            extensions: if upper.extensions.is_some() {
                upper.extensions
            } else {
                self.extensions
            },
        }
    }
}

impl ServiceConfig {
    /// The bounds of the pool are in order.
    pub open spec fn wf(&self) -> bool {
        self@.pool_min <= self@.pool_max
    }

    /// Checks merged settings and freezes them into a snapshot.
    pub fn checked(merged: Defaults) -> (res: Result<ServiceConfig, ConfigError>)
        ensures
            res matches Ok(cfg) ==> merged@.checked() == Ok::<ServiceConfigView, ConfigError>(cfg@)
                && cfg.wf(),
            res matches Err(e) ==> merged@.checked() == Err::<ServiceConfigView, ConfigError>(e),
    {
        if merged.host.is_none() {
            return Err(ConfigError::MissingHost);
        }
        if merged.pool_min as usize > merged.pool_max {
            return Err(ConfigError::InvalidPoolBounds);
        }
        Ok(
            ServiceConfig {
                host: merged.host.unwrap(),
                pool_min: merged.pool_min,
                pool_max: merged.pool_max,
                connect_timeout: merged.connect_timeout,
                idle_timeout: merged.idle_timeout,
                extensions: merged.extensions,
            },
        )
    }

    pub fn host(&self) -> (host: &String)
        ensures
            host@ == self@.host,
    {
        &self.host
    }

    pub fn pool_min(&self) -> (n: u32)
        ensures
            n == self@.pool_min,
    {
        self.pool_min
    }

    pub fn pool_max(&self) -> (n: usize)
        ensures
            n == self@.pool_max,
    {
        self.pool_max
    }

    pub fn connect_timeout(&self) -> (t: u64)
        ensures
            t == self@.connect_timeout,
    {
        self.connect_timeout
    }

    pub fn idle_timeout(&self) -> (t: Option<u64>)
        ensures
            t == self@.idle_timeout,
    {
        self.idle_timeout
    }

    pub fn extensions(&self) -> (ext: &Option<Vec<String>>)
        ensures
            ext.deep_view() == self@.extensions,
    {
        &self.extensions
    }
}

/// Resolves the configuration from its three sources, lowest first: the
/// defaults, the configuration file, the environment. A later source
/// overrides an earlier one setting by setting. The result depends on the
/// three arguments alone.
///
/// Fails with `MissingHost` when no source names the host, and with
/// `InvalidPoolBounds` when the merged `pool_min` is above the merged
/// `pool_max`.
pub fn resolve(defaults: Defaults, file: ConfigLayer, env: ConfigLayer) -> (res: Result<
    ServiceConfig,
    ConfigError,
>)
    ensures
        res matches Ok(cfg) ==> resolved(defaults@, file@, env@) == Ok::<
            ServiceConfigView,
            ConfigError,
        >(cfg@) && cfg.wf(),
        res matches Err(e) ==> resolved(defaults@, file@, env@) == Err::<
            ServiceConfigView,
            ConfigError,
        >(e),
        defaults@.overlay(file@).overlay(env@).pool_min > defaults@.overlay(file@).overlay(
            env@,
        ).pool_max ==> res is Err,
{
    ServiceConfig::checked(defaults.overlay(file).overlay(env))
}

} // verus!
