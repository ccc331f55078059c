//! Configuration values set when the game starts, some of which can't be
//! changed later.

use vstd::prelude::*;

verus! {

/// The window settings handed to the windowing layer.
#[derive(Debug)]
pub struct WindowConf {
    pub window_title: String,
    pub window_width: i32,
    pub window_height: i32,
    pub high_dpi: bool,
    pub fullscreen: bool,
    pub sample_count: i32,
    pub window_resizable: bool,
}

/// Holds configuration values setting different options when starting the game.
#[derive(Debug)]
pub struct Conf {
    /// `Filesystem::open` will try to read from this dir if there's no such file in the cache.
    ///
    /// Note that this won't work on platforms where `std::fs` is unavailable, like WASM.
    pub physical_root_dir: Option<std::path::PathBuf>,
    /// An embedded tar archive whose files are looked up first.
    pub cache: Option<&'static [u8]>,
    pub quad_conf: WindowConf,
}

impl Default for Conf {
    /// No root directory, no cache, an 800x600 window titled
    /// "An easy, good game" without high-dpi, fullscreen, multisampling or resizing.
    fn default() -> (c: Conf)
        ensures
            c.physical_root_dir is None,
            c.cache is None,
            c.quad_conf.window_title@ == "An easy, good game"@,
            c.quad_conf.window_width == 800,
            c.quad_conf.window_height == 600,
            !c.quad_conf.high_dpi,
            !c.quad_conf.fullscreen,
            c.quad_conf.sample_count == 1,
            !c.quad_conf.window_resizable,
    {
        Conf {
            physical_root_dir: None,
            cache: None,
            quad_conf: WindowConf {
                window_title: "An easy, good game".to_string(),
                window_width: 800,
                window_height: 600,
                high_dpi: false,
                fullscreen: false,
                sample_count: 1,
                window_resizable: false,
            },
        }
    }
}

impl Conf {
    /// Set the root of your filesystem. Default: `None`
    pub fn physical_root_dir(self, val: Option<std::path::PathBuf>) -> (c: Self)
        ensures
            c.physical_root_dir == val,
            c.cache == self.cache,
            c.quad_conf == self.quad_conf,
    {
        let mut c = self;
        c.physical_root_dir = val;
        c
    }

    /// Set the cache, holding embedded files for later use. Default: `None`
    pub fn cache(self, val: Option<&'static [u8]>) -> (c: Self)
        ensures
            c.physical_root_dir == self.physical_root_dir,
            c.cache == val,
            c.quad_conf == self.quad_conf,
    {
        let mut c = self;
        c.cache = val;
        c
    }

    /// Set the window title. Default: "An easy, good game"
    pub fn window_title(self, val: String) -> (c: Self)
        ensures
            c.physical_root_dir == self.physical_root_dir,
            c.cache == self.cache,
            c.quad_conf == (WindowConf { window_title: val, ..self.quad_conf }),
    {
        let mut c = self;
        c.quad_conf.window_title = val;
        c
    }

    /// Set the window width in logical pixels. Default: `800`
    pub fn window_width(self, val: i32) -> (c: Self)
        ensures
            c.physical_root_dir == self.physical_root_dir,
            c.cache == self.cache,
            c.quad_conf == (WindowConf { window_width: val, ..self.quad_conf }),
    {
        let mut c = self;
        c.quad_conf.window_width = val;
        c
    }

    /// Set the window height in logical pixels. Default: `600`
    pub fn window_height(self, val: i32) -> (c: Self)
        ensures
            c.physical_root_dir == self.physical_root_dir,
            c.cache == self.cache,
            c.quad_conf == (WindowConf { window_height: val, ..self.quad_conf }),
    {
        let mut c = self;
        c.quad_conf.window_height = val;
        c
    }

    /// Sets whether the rendering canvas is full-resolution on HighDPI displays.
    /// Default: `false`
    pub fn high_dpi(self, val: bool) -> (c: Self)
        ensures
            c.physical_root_dir == self.physical_root_dir,
            c.cache == self.cache,
            c.quad_conf == (WindowConf { high_dpi: val, ..self.quad_conf }),
    {
        let mut c = self;
        c.quad_conf.high_dpi = val;
        c
    }

    /// Set whether to run in fullscreen mode. Default: `false`
    pub fn fullscreen(self, val: bool) -> (c: Self)
        ensures
            c.physical_root_dir == self.physical_root_dir,
            c.cache == self.cache,
            c.quad_conf == (WindowConf { fullscreen: val, ..self.quad_conf }),
    {
        let mut c = self;
        c.quad_conf.fullscreen = val;
        c
    }

    /// Set how many samples should be used in MSAA. Default: `1`
    pub fn sample_count(self, val: i32) -> (c: Self)
        ensures
            c.physical_root_dir == self.physical_root_dir,
            c.cache == self.cache,
            c.quad_conf == (WindowConf { sample_count: val, ..self.quad_conf }),
    {
        let mut c = self;
        c.quad_conf.sample_count = val;
        c
    }

    /// Set whether the window should be resizable by the user. Default: `false`
    pub fn window_resizable(self, val: bool) -> (c: Self)
        ensures
            c.physical_root_dir == self.physical_root_dir,
            c.cache == self.cache,
            c.quad_conf == (WindowConf { window_resizable: val, ..self.quad_conf }),
    {
        let mut c = self;
        c.quad_conf.window_resizable = val;
        c
    }
}

} // verus!
