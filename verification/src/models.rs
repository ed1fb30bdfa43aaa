//! The three models the pipeline runs, held together: speech recognition
//! (`W`), translation (`T`) and speech synthesis (`S`).
use vstd::prelude::*;

verus! {

/// The device a model runs on.
#[derive(Clone, Copy, Debug, PartialEq, Eq, Structural)]
pub enum DeviceKind {
    Cpu,
    Cuda,
}

/// The name shown for a device.
pub open spec fn device_name(d: DeviceKind) -> Seq<char> {
    match d {
        DeviceKind::Cpu => "CPU"@,
        DeviceKind::Cuda => "CUDA"@,
    }
}

/// The name shown for device `d`.
pub fn device_label(d: DeviceKind) -> (r: &'static str)
    ensures
        r@ == device_name(d),
{
    match d {
        DeviceKind::Cpu => "CPU",
        DeviceKind::Cuda => "CUDA",
    }
}

/// The loaded models.
pub struct ModelManager<W, T, S> {
    whisper: Option<W>,
    whisper_device: DeviceKind,
    translator: Option<T>,
    tts: Option<S>,
    models_loaded: bool,
}

impl<W, T, S> ModelManager<W, T, S> {
    /// The models count as loaded only when all three are there.
    #[verifier::type_invariant]
    spec fn loaded_means_complete(&self) -> bool {
        self.models_loaded ==> self.whisper is Some && self.translator is Some && self.tts is Some
    }

    /// The speech recognition model, if loaded.
    pub closed spec fn whisper_model(&self) -> Option<W> {
        self.whisper
    }

    /// The device the speech recognition model runs on.
    pub closed spec fn whisper_device_kind(&self) -> DeviceKind {
        self.whisper_device
    }

    /// The translation model, if loaded.
    pub closed spec fn translator_model(&self) -> Option<T> {
        self.translator
    }

    /// The speech synthesis model, if loaded.
    pub closed spec fn tts_model(&self) -> Option<S> {
        self.tts
    }

    /// Whether loading all three models completed.
    pub closed spec fn loaded(&self) -> bool {
        self.models_loaded
    }

    /// All three models are present.
    pub open spec fn complete(&self) -> bool {
        &&& self.whisper_model() is Some
        &&& self.translator_model() is Some
        &&& self.tts_model() is Some
    }

    /// No model loaded.
    pub fn new() -> (r: Self)
        ensures
            r.whisper_model() is None,
            r.translator_model() is None,
            r.tts_model() is None,
            !r.loaded(),
    {
        ModelManager {
            whisper: None,
            whisper_device: DeviceKind::Cpu,
            translator: None,
            tts: None,
            models_loaded: false,
        }
    }

    /// Whether loading all three models completed; when it did, all three
    /// are there.
    pub fn is_loaded(&self) -> (r: bool)
        ensures
            r == self.loaded(),
            r ==> self.complete(),
    {
        proof {
            use_type_invariant(self);
        }
        self.models_loaded
    }

    /// The speech recognition model.
    pub fn get_whisper(&self) -> (r: Option<&W>)
        ensures
            match r {
                Some(w) => self.whisper_model() == Some(*w),
                None => self.whisper_model() is None,
            },
    {
        self.whisper.as_ref()
    }

    /// The translation model.
    pub fn get_translator(&self) -> (r: Option<&T>)
        ensures
            match r {
                Some(t) => self.translator_model() == Some(*t),
                None => self.translator_model() is None,
            },
    {
        self.translator.as_ref()
    }

    /// The speech synthesis model.
    pub fn get_tts(&self) -> (r: Option<&S>)
        ensures
            match r {
                Some(s) => self.tts_model() == Some(*s),
                None => self.tts_model() is None,
            },
    {
        self.tts.as_ref()
    }

    /// The name of the device the speech recognition model runs on, "CPU"
    /// when it is not loaded.
    pub fn get_active_device(&self) -> (r: String)
        ensures
            r@ == match self.whisper_model() {
                Some(_) => device_name(self.whisper_device_kind()),
                None => "CPU"@,
            },
    {
        match &self.whisper {
            Some(_) => String::from_str(device_label(self.whisper_device)),
            None => String::from_str("CPU"),
        }
    }

    /// Loads the three models in order: speech recognition (with the device
    /// it runs on), translation, speech synthesis. The first failure stops
    /// the loading and is returned, keeping the models loaded before it;
    /// the models count as loaded once all three are in.
    pub fn load_models<E, FW, FT, FS>(
        &mut self,
        load_whisper: FW,
        load_translator: FT,
        load_tts: FS,
    ) -> (r: Result<(), E>) where
        FW: FnOnce() -> Result<(W, DeviceKind), E>,
        FT: FnOnce() -> Result<T, E>,
        FS: FnOnce() -> Result<S, E>,

        requires
            call_requires(load_whisper, ()),
            call_requires(load_translator, ()),
            call_requires(load_tts, ()),
        ensures
            r is Ok ==> {
                &&& final(self).loaded()
                &&& final(self).complete()
                &&& call_ensures(
                    load_whisper,
                    (),
                    Ok((final(self).whisper_model()->0, final(self).whisper_device_kind())),
                )
                &&& call_ensures(load_translator, (), Ok(final(self).translator_model()->0))
                &&& call_ensures(load_tts, (), Ok(final(self).tts_model()->0))
            },
            r matches Err(e) ==> {
                ||| call_ensures(load_whisper, (), Err(e)) && *final(self) == *old(self)
                ||| {
                    &&& call_ensures(
                        load_whisper,
                        (),
                        Ok((final(self).whisper_model()->0, final(self).whisper_device_kind())),
                    )
                    &&& final(self).whisper_model() is Some
                    &&& call_ensures(load_translator, (), Err(e))
                    &&& final(self).translator_model() == old(self).translator_model()
                    &&& final(self).tts_model() == old(self).tts_model()
                    &&& final(self).loaded() == old(self).loaded()
                }
                ||| {
                    &&& call_ensures(
                        load_whisper,
                        (),
                        Ok((final(self).whisper_model()->0, final(self).whisper_device_kind())),
                    )
                    &&& final(self).whisper_model() is Some
                    &&& call_ensures(load_translator, (), Ok(final(self).translator_model()->0))
                    &&& final(self).translator_model() is Some
                    &&& call_ensures(load_tts, (), Err(e))
                    &&& final(self).tts_model() == old(self).tts_model()
                    &&& final(self).loaded() == old(self).loaded()
                }
            },
            final(self).loaded() ==> final(self).complete(),
    {
        proof {
            use_type_invariant(&*self);
        }
        let (whisper, device) = match load_whisper() {
            Ok(loaded) => loaded,
            Err(e) => return Err(e),
        };
        self.whisper = Some(whisper);
        self.whisper_device = device;
        let translator = match load_translator() {
            Ok(loaded) => loaded,
            Err(e) => return Err(e),
        };
        self.translator = Some(translator);
        let tts = match load_tts() {
            Ok(loaded) => loaded,
            Err(e) => return Err(e),
        };
        self.tts = Some(tts);
        self.models_loaded = true;
        Ok(())
    }

    /// Drops all models.
    pub fn unload(&mut self)
        ensures
            final(self).whisper_model() is None,
            final(self).translator_model() is None,
            final(self).tts_model() is None,
            !final(self).loaded(),
    {
        self.models_loaded = false;
        self.whisper = None;
        self.translator = None;
        self.tts = None;
    }
}

impl<W, T, S> Default for ModelManager<W, T, S> {
    /// No model loaded.
    fn default() -> (r: Self)
        ensures
            r.whisper_model() is None,
            r.translator_model() is None,
            r.tts_model() is None,
            !r.loaded(),
    {
        ModelManager::new()
    }
}

} // verus!
