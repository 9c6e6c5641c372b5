//! Where data goes when a program runs.
//!
//! A machine runs the commands of a program on contents that are followed from
//! what the CPU wrote: copies move them, shader passes and SDKs make new ones out
//! of those that they read. A content that cannot be relied on is unknown: bytes
//! that a copy does not take in whole, contents that a layout transition may
//! discard, and what was written by the GPU and is read without a barrier between.

use vstd::prelude::*;

use crate::vulkan::program::{Access, Layout, PassConstants, PlanView, SdkWork, Stage, Step};

verus! {

/// What a buffer or an image holds.
pub enum Content {
    /// Nothing that can be relied on.
    Unknown,
    /// Bytes that the CPU wrote, filling it.
    Written(Seq<u8>),
    /// What a shader pass makes of the buffers that it reads, in the order of their
    /// binding numbers.
    Shaded { pass: usize, constants: PassConstants, inputs: Seq<Content> },
    /// What the work of an SDK puts into an image out of those that it reads.
    Worked { work: SdkWork, image: int, inputs: Seq<Content> },
    /// A picture scaled to a size.
    Scaled { source: Box<Content>, width: u32, height: u32 },
}

/// A buffer or an image, with who may read it.
pub struct Cell {
    pub content: Content,
    /// How the GPU wrote it, if it was the GPU.
    pub writer: Option<Access>,
    /// Whether copies see what was written.
    pub for_copies: bool,
    /// Whether shaders see what was written.
    pub for_shaders: bool,
}

impl Cell {
    /// Written by the CPU, or before the program: seen by all.
    pub open spec fn ready(content: Content) -> Cell {
        Cell { content, writer: None, for_copies: true, for_shaders: true }
    }

    /// Written by a command: seen by nobody before a barrier.
    pub open spec fn fresh(content: Content, writer: Access) -> Cell {
        Cell { content, writer: Some(writer), for_copies: false, for_shaders: false }
    }

    /// After a barrier.
    pub open spec fn after_barrier(
        self,
        src_access: Access,
        dst_access: Access,
        src_stage: Stage,
        dst_stage: Stage,
    ) -> Cell {
        let waited_for = match self.writer {
            None => false,
            Some(Access::TransferWrite) => src_access == Access::TransferWrite && src_stage
                == Stage::Transfer,
            Some(_) => (src_access == Access::ShaderWrite || src_access
                == Access::ShaderReadWrite) && src_stage == Stage::Compute,
        };
        Cell {
            for_copies: self.for_copies || waited_for && dst_access == Access::TransferRead
                && dst_stage == Stage::Transfer,
            for_shaders: self.for_shaders || waited_for && (dst_access == Access::ShaderRead
                || dst_access == Access::ShaderReadWrite) && dst_stage == Stage::Compute,
            ..self
        }
    }
}

/// What the buffers and the images hold.
pub struct Contents {
    pub buffers: Seq<Cell>,
    pub images: Seq<Cell>,
}

/// What runs programs.
pub struct Machine {
    /// The resources.
    pub plan: PlanView,
    /// Number of buffers that are bound to each shader pass. They have the numbers
    /// from 0; the pass writes the last one and reads the others.
    pub pass_buffers: Seq<nat>,
    /// Whether a transition from an undefined layout discards what an image held.
    pub discards: bool,
    /// Whether commands run side by side unless a barrier keeps them apart.
    pub overlaps: bool,
}

impl Machine {
    /// Before anything was written.
    pub open spec fn blank(self) -> Contents {
        Contents {
            buffers: Seq::new(self.plan.buffers.len(), |i: int| Cell::ready(Content::Unknown)),
            images: Seq::new(self.plan.images.len(), |i: int| Cell::ready(Content::Unknown)),
        }
    }

    /// After the CPU wrote bytes to the start of a buffer.
    pub open spec fn written(self, m: Contents, buffer: usize, data: Seq<u8>) -> Contents {
        Contents {
            buffers: m.buffers.update(
                buffer as int,
                Cell::ready(
                    if data.len() == self.plan.buffers[buffer as int].size {
                        Content::Written(data)
                    } else {
                        Content::Unknown
                    },
                ),
            ),
            ..m
        }
    }

    /// What a copy reads.
    pub open spec fn copied(self, c: Cell) -> Content {
        if c.for_copies || !self.overlaps {
            c.content
        } else {
            Content::Unknown
        }
    }

    /// What a shader or an SDK reads.
    pub open spec fn shaded(self, c: Cell) -> Content {
        if c.for_shaders || !self.overlaps {
            c.content
        } else {
            Content::Unknown
        }
    }

    /// Whether a binding is that of a number of a pass.
    pub open spec fn binds(self, pass: usize, number: int, i: int) -> bool {
        &&& 0 <= i < self.plan.bindings.len()
        &&& self.plan.bindings[i].pass == pass
        &&& self.plan.bindings[i].binding == number
    }

    /// The buffer that is bound to a number of a pass.
    pub open spec fn bound(self, pass: usize, number: int) -> int {
        self.plan.bindings[choose|i: int| self.binds(pass, number, i)].buffer as int
    }

    /// What a shader pass finds in the buffer of a binding number.
    pub open spec fn input(self, m: Contents, pass: usize, number: int) -> Content {
        self.shaded(m.buffers[self.bound(pass, number)])
    }

    /// What a shader pass finds in the buffers that it reads.
    pub open spec fn inputs(self, m: Contents, pass: usize) -> Seq<Content> {
        Seq::new(
            (self.pass_buffers[pass as int] - 1) as nat,
            |number: int| self.input(m, pass, number),
        )
    }

    /// What an SDK puts into an image.
    pub open spec fn worked(self, m: Contents, work: SdkWork, image: int) -> Cell {
        let read = match work {
            SdkWork::OpticalFlow => seq![0int, 1],
            SdkWork::Upscale => seq![0int, 1, 2],
            SdkWork::Prepare => seq![1int, 2],
            SdkWork::Generate => seq![0int, 4, 5, 6, 7],
        };
        Cell::fresh(
            Content::Worked {
                work,
                image,
                inputs: read.map_values(|i: int| self.shaded(m.images[i])),
            },
            Access::ShaderWrite,
        )
    }

    /// Whether a buffer holds exactly the pixels of an image.
    pub open spec fn matches(self, buffer: usize, image: usize, width: u32, height: u32) -> bool {
        let i = self.plan.images[image as int];
        &&& width == i.width
        &&& height == i.height
        &&& self.plan.buffers[buffer as int].size == width * height * i.format.pixel_bytes()
    }

    /// After a command.
    pub open spec fn after_step(self, m: Contents, step: Step) -> Contents {
        match step {
            Step::ImageBarrier {
                image,
                from,
                to: _,
                src_access,
                dst_access,
                src_stage,
                dst_stage,
            } => Contents {
                images: m.images.update(
                    image as int,
                    if from == Layout::Undefined && self.discards {
                        Cell::ready(Content::Unknown)
                    } else {
                        m.images[image as int].after_barrier(
                            src_access,
                            dst_access,
                            src_stage,
                            dst_stage,
                        )
                    },
                ),
                ..m
            },
            Step::MemoryBarrier { src_access, dst_access, src_stage, dst_stage } => Contents {
                buffers: m.buffers.map_values(
                    |c: Cell| c.after_barrier(src_access, dst_access, src_stage, dst_stage),
                ),
                images: m.images.map_values(
                    |c: Cell| c.after_barrier(src_access, dst_access, src_stage, dst_stage),
                ),
            },
            Step::CopyBuffer { src, dst, size } => Contents {
                buffers: m.buffers.update(
                    dst as int,
                    Cell::fresh(
                        if size == self.plan.buffers[src as int].size && size
                            == self.plan.buffers[dst as int].size {
                            self.copied(m.buffers[src as int])
                        } else {
                            Content::Unknown
                        },
                        Access::TransferWrite,
                    ),
                ),
                ..m
            },
            Step::CopyBufferToImage { buffer, image, width, height } => Contents {
                images: m.images.update(
                    image as int,
                    Cell::fresh(
                        if self.matches(buffer, image, width, height) {
                            self.copied(m.buffers[buffer as int])
                        } else {
                            Content::Unknown
                        },
                        Access::TransferWrite,
                    ),
                ),
                ..m
            },
            Step::CopyImageToBuffer { image, buffer, width, height } => Contents {
                buffers: m.buffers.update(
                    buffer as int,
                    Cell::fresh(
                        if self.matches(buffer, image, width, height) {
                            self.copied(m.images[image as int])
                        } else {
                            Content::Unknown
                        },
                        Access::TransferWrite,
                    ),
                ),
                ..m
            },
            Step::Blit { src, dst } => Contents {
                images: m.images.update(
                    dst as int,
                    Cell::fresh(
                        Content::Scaled {
                            source: Box::new(self.copied(m.images[src as int])),
                            width: self.plan.images[dst as int].width,
                            height: self.plan.images[dst as int].height,
                        },
                        Access::TransferWrite,
                    ),
                ),
                ..m
            },
            Step::Dispatch { pass, constants, .. } => Contents {
                buffers: m.buffers.update(
                    self.bound(pass, self.pass_buffers[pass as int] - 1),
                    Cell::fresh(
                        Content::Shaded { pass, constants, inputs: self.inputs(m, pass) },
                        Access::ShaderWrite,
                    ),
                ),
                ..m
            },
            Step::Sdk(work) => Contents {
                images: match work {
                    SdkWork::OpticalFlow => m.images.update(2, self.worked(m, work, 2)),
                    SdkWork::Upscale => m.images.update(3, self.worked(m, work, 3)),
                    SdkWork::Prepare => m.images.update(4, self.worked(m, work, 4)).update(
                        5,
                        self.worked(m, work, 5),
                    ),
                    SdkWork::Generate => m.images.update(3, self.worked(m, work, 3)),
                },
                ..m
            },
        }
    }

    /// After the first `n` commands of a program.
    pub open spec fn after(self, m: Contents, steps: Seq<Step>, n: int) -> Contents
        decreases n,
    {
        if n <= 0 {
            m
        } else {
            self.after_step(self.after(m, steps, n - 1), steps[n - 1])
        }
    }

    /// After a program has ended: everything that it wrote can be read.
    pub open spec fn done(self, m: Contents, steps: Seq<Step>) -> Contents {
        let end = self.after(m, steps, steps.len() as int);
        Contents {
            buffers: end.buffers.map_values(|c: Cell| Cell::ready(c.content)),
            images: end.images.map_values(|c: Cell| Cell::ready(c.content)),
        }
    }
}

/// A number of a pass that one binding has is bound to the buffer of that binding.
pub proof fn lemma_bound(machine: Machine, pass: usize, number: int, i: int)
    requires
        machine.binds(pass, number, i),
        forall|j: int| #[trigger] machine.binds(pass, number, j) ==> j == i,
    ensures
        machine.bound(pass, number) == machine.plan.bindings[i].buffer,
{
}

} // verus!
