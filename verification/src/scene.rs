use vstd::prelude::*;

verus! {

/// Which scene the renderer shows.
#[derive(Clone, Copy, PartialEq, Eq, Debug, Structural)]
pub enum SceneMode {
    Earth,
    Tokyo,
    Okinawa,
}

impl SceneMode {
    /// `--mode`: `tokyo` and `okinawa` select the local scenes; anything
    /// else, or no value, the globe.
    pub fn from_arg(arg: Option<&str>) -> (r: SceneMode)
        ensures
            r == (match arg {
                Some(s) => if s@ == "tokyo"@ {
                    SceneMode::Tokyo
                } else if s@ == "okinawa"@ {
                    SceneMode::Okinawa
                } else {
                    SceneMode::Earth
                },
                None => SceneMode::Earth,
            }),
    {
        match arg {
            Some(s) => {
                let owned = String::from_str(s);
                if owned == String::from_str("tokyo") {
                    SceneMode::Tokyo
                } else if owned == String::from_str("okinawa") {
                    SceneMode::Okinawa
                } else {
                    SceneMode::Earth
                }
            },
            None => SceneMode::Earth,
        }
    }
}

} // verus!
