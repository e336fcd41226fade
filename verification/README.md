# reims_vgpu

The verified core of a paravirtual GPU device: what it decides about a guest's
shader modules, surfaces and compute dispatches, written in Rust and proved with
Verus.

- `src/spirv_bind/` reads and rewrites SPIR-V modules: which buffers and images a
  kernel reads or writes, the formats of its storage images and their
  specialization to the bound surfaces, the relocation of fragment bindings, and
  what the translator's reflection says of a shader.
- `src/mapper/` keeps the guest's mapped surfaces: the capture of a mapping
  request, the resolve of its pages and geometry, the checks that no two surfaces
  share a page, and reads and writes of a surface's bytes, before which whatever an
  engine still owes to them is landed.
- `src/compute_exec/` takes a compute dispatch from its binds to its written
  outputs: staging of buffers and textures, the grid, the kernel's
  specialization, the engine's resources, and who holds an output afterwards. A
  Metal device takes the kernel's container as it is and has a sequence of its own
  (`metal_dispatch.rs`).
- `src/model.rs`, `src/mapping.rs`, `src/residency.rs`, `src/contract.rs` hold the
  device state and the guest's data layouts; `src/host.rs` is what the device asks
  of its host, with a host for tests in `src/fake_host.rs`.

What holds across operations stands as public proof functions named `law_..`,
beside the functions they speak of or in a `..laws.rs` file.

Work that only the outside can do (guest memory, the translator, the engine, the
log) is in `app/`. A dispatch and the staging of a texture are state machines:
each waits for one result at a time, and `app/` fetches it.

Two contracts are taken on trust: the constants of `metal2vulkan::reflect` that
name its reflection version and its descriptor set (`src/spirv_bind/reflection.rs`).
