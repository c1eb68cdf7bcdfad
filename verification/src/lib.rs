//! Voxel engine core: faces, directions, occlusion shapes, block sections
//! and chunks, the update queue, region sector allocation, section codecs
//! and the small value types around them.
pub mod bits;
pub mod error;
pub mod direction;
pub mod coordmap;
pub mod occlusion_shape;
pub mod occluder;
pub mod faces;
pub mod sectoroffset;
pub mod sectormanager;
pub mod freespace;
pub mod timestamp;
pub mod regioncoord;
pub mod regiontable;
pub mod coord;
pub mod chunkcoord;
pub mod update;
pub mod byteio;
pub mod heightmap;
pub mod occlusion;
pub mod sectionio;
pub mod blockpack;
pub mod faceflags;
pub mod axis;
pub mod blocklayer;
pub mod lod;
pub mod color;
pub mod externevent;
pub mod dirty;
pub mod lightargs;
pub mod blocks;
pub mod blockregistry;
pub mod section;
pub mod chunk;
pub mod gridindex;
pub mod memory;
pub mod placement;
pub mod query;
pub mod worldgenerator;
pub mod meshing;
pub mod cameras;
pub mod blockdata;
pub mod regionfile;
pub mod record;
pub mod seed;
pub mod header;
pub mod procgen;
pub mod worldedit;
