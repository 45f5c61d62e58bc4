use vstd::prelude::*;

verus! {

/// The most instances drawn by one call.
pub const BATCH_SIZE: usize = 1024;

/// Glyph instances collected to be drawn together, with the texture of
/// the first one.
pub struct Batch<T> {
    texture_id: u32,
    instances: Vec<T>,
}

impl<T> Batch<T> {
    /// A batch never holds more than `BATCH_SIZE` instances.
    #[verifier::type_invariant]
    spec fn bounded(self) -> bool {
        self.instances.len() <= BATCH_SIZE
    }

    /// The instances collected, oldest first.
    pub closed spec fn items(&self) -> Seq<T> {
        self.instances@
    }

    /// The texture the batch is drawn with.
    pub closed spec fn texture(&self) -> u32 {
        self.texture_id
    }

    /// An empty batch.
    pub fn new() -> (b: Self)
        ensures
            b.items() == Seq::<T>::empty(),
            b.texture() == 0,
    {
        Self { texture_id: 0, instances: Vec::with_capacity(BATCH_SIZE) }
    }

    pub fn is_empty(&self) -> (b: bool)
        ensures
            b == (self.items().len() == 0),
    {
        self.instances.is_empty()
    }

    /// Adds an instance drawn with texture `texture_id`, unless the batch is
    /// full. The first instance of a batch sets its texture. Returns whether
    /// the batch is full afterwards, in which case it should be drawn and
    /// cleared.
    pub fn push(&mut self, texture_id: i32, data: T) -> (full: bool)
        ensures
            final(self).texture() == if old(self).items().len() == 0 {
                texture_id as u32
            } else {
                old(self).texture()
            },
            final(self).items() == if old(self).items().len() < BATCH_SIZE {
                old(self).items().push(data)
            } else {
                old(self).items()
            },
            full == (final(self).items().len() == BATCH_SIZE),
            final(self).items().len() <= BATCH_SIZE,
    {
        proof {
            use_type_invariant(&*self);
        }
        if self.is_empty() {
            self.texture_id = texture_id as u32;
        }
        if self.instances.len() < BATCH_SIZE {
            let mut instances = Vec::new();
            std::mem::swap(&mut instances, &mut self.instances);
            instances.push(data);
            self.instances = instances;
        }
        self.instances.len() == BATCH_SIZE
    }

    /// Removes every instance; the texture stays.
    pub fn clear(&mut self)
        ensures
            final(self).items() == Seq::<T>::empty(),
            final(self).texture() == old(self).texture(),
    {
        let mut instances = Vec::new();
        std::mem::swap(&mut instances, &mut self.instances);
        instances.clear();
        self.instances = instances;
    }

    /// The texture the batch is drawn with.
    pub fn texture_id(&self) -> (t: u32)
        ensures
            t == self.texture(),
    {
        self.texture_id
    }

    /// The instances collected, oldest first.
    pub fn instances(&self) -> (v: &Vec<T>)
        ensures
            v@ == self.items(),
    {
        &self.instances
    }
}

} // verus!
