//! A small real-time raytracer core, verified with Verus.
//!
//! The library models the rendering pipeline of an interactive scene
//! viewer: a scene store of rigid shapes with stale-until-refresh pose
//! updates, a free-look camera, per-pixel primary-ray generation,
//! diffuse shading with hard shadows and gamma correction, a packed
//! 3-3-2 RGB framebuffer, and the per-frame control loop's state
//! machine. All geometry and shading runs in fixed-point arithmetic so
//! that every step has an exact, machine-checked contract.

mod background;
mod camera;
mod color;
mod fixed;
mod looper;
mod render;
mod scene;
mod shade;

pub use background::background;
pub use looper::LoopState;
pub use looper::InputEvent;
pub use render::render_pixel;
pub use render::render_frame;
pub use render::MAX_RAY_T;
pub use render::lemma_miss_renders_background;

pub use shade::shade;
pub use shade::shadow_ray;
pub use shade::lemma_diffuse_bound;
pub use shade::lemma_occluded_black;

pub use scene::Scene;
pub use scene::SceneObject;
pub use scene::Shape;
pub use scene::Pose;
pub use scene::Tri;
pub use scene::HitResult;
pub use scene::lemma_stale_until_refresh;

pub use camera::Camera;
pub use camera::MoveDir;
pub use camera::lemma_moves_commute;
pub use fixed::FP_ONE;
pub use fixed::Mat3;
pub use fixed::Ray;
pub use fixed::COORD_LIMIT;
pub use fixed::V3;
pub use fixed::normalize;
pub use fixed::isqrt;
pub use color::pack_color;
pub use color::unpack_red;
pub use color::unpack_green;
pub use color::unpack_blue;
pub use color::lemma_color_round_trip;
