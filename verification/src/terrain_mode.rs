//! Terrain display modes and the declarative render style each mode asks for.
//!
//! The presentation layer owns scene nodes; the core only decides *what* a
//! mode means. [`render_style`] maps a [`TerrainMode`] to a small record of
//! rendering switches which the presentation layer applies to every tile
//! node, keeping mode logic out of any particular rendering API.

use vstd::prelude::*;

verus! {

/// How the terrain tiles are displayed.
#[derive(Copy, Clone, Debug, Eq, PartialEq, Structural)]
pub enum TerrainMode {
    /// Colored points and lines
    Wireframe,
    /// Colored points
    Points,
    /// Solid, colored material
    Solid,
    /// Solid, color provided by the heightmap image itself
    Textured,
    /// Solid, color provided by the alpha map channels
    Alphamap,
}

/// Which texture a render style selects for the tile nodes.
#[derive(Copy, Clone, Debug, Eq, PartialEq, Structural)]
pub enum TextureChoice {
    /// The renderer's built-in default texture
    DefaultTexture,
    /// The texture built from the heightmap source image
    HeightmapTexture,
    /// The texture built from the alpha map source image
    AlphamapTexture,
}

/// The rendering switches one terrain mode asks of the presentation layer.
/// Sizes and widths are in whole pixels; the tile color is always white.
#[derive(Copy, Clone, Debug, Eq, PartialEq, Structural)]
pub struct RenderStyle {
    /// Render filled surfaces
    pub surface: bool,
    /// Cull back faces
    pub backface_culling: bool,
    /// Point size in pixels (0 hides points)
    pub points_size: u32,
    /// Line width in pixels (0 hides lines)
    pub lines_width: u32,
    /// Select the plain object material (otherwise keep the node's material)
    pub object_material: bool,
    /// Which texture the nodes bind
    pub texture: TextureChoice,
}

/// The mode that follows `m` in the display-mode cycle.
pub open spec fn next_mode(m: TerrainMode) -> TerrainMode {
    match m {
        TerrainMode::Wireframe => TerrainMode::Points,
        TerrainMode::Points => TerrainMode::Solid,
        TerrainMode::Solid => TerrainMode::Textured,
        TerrainMode::Textured => TerrainMode::Alphamap,
        TerrainMode::Alphamap => TerrainMode::Wireframe,
    }
}

/// The render style a mode asks for.
pub open spec fn style_of(m: TerrainMode) -> RenderStyle {
    match m {
        TerrainMode::Wireframe => (RenderStyle {
            surface: false,
            backface_culling: false,
            points_size: 3,
            lines_width: 1,
            object_material: true,
            texture: TextureChoice::DefaultTexture,
        }),
        TerrainMode::Points => (RenderStyle {
            surface: false,
            backface_culling: false,
            points_size: 3,
            lines_width: 0,
            object_material: true,
            texture: TextureChoice::DefaultTexture,
        }),
        TerrainMode::Solid => (RenderStyle {
            surface: true,
            backface_culling: true,
            points_size: 0,
            lines_width: 0,
            object_material: true,
            texture: TextureChoice::DefaultTexture,
        }),
        TerrainMode::Textured => (RenderStyle {
            surface: true,
            backface_culling: true,
            points_size: 0,
            lines_width: 0,
            object_material: false,
            texture: TextureChoice::HeightmapTexture,
        }),
        TerrainMode::Alphamap => (RenderStyle {
            surface: true,
            backface_culling: true,
            points_size: 0,
            lines_width: 0,
            object_material: false,
            texture: TextureChoice::AlphamapTexture,
        }),
    }
}

impl TerrainMode {
    /// Cycles to the next display mode.
    pub fn next(&self) -> (r: Self)
        ensures
            r == next_mode(*self),
    {
        match *self {
            TerrainMode::Wireframe => TerrainMode::Points,
            TerrainMode::Points => TerrainMode::Solid,
            TerrainMode::Solid => TerrainMode::Textured,
            TerrainMode::Textured => TerrainMode::Alphamap,
            TerrainMode::Alphamap => TerrainMode::Wireframe,
        }
    }
}

/// The rendering switches the presentation layer must apply for mode `m`.
pub fn render_style(m: TerrainMode) -> (r: RenderStyle)
    ensures
        r == style_of(m),
{
    match m {
        TerrainMode::Wireframe => RenderStyle {
            surface: false,
            backface_culling: false,
            points_size: 3,
            lines_width: 1,
            object_material: true,
            texture: TextureChoice::DefaultTexture,
        },
        TerrainMode::Points => RenderStyle {
            surface: false,
            backface_culling: false,
            points_size: 3,
            lines_width: 0,
            object_material: true,
            texture: TextureChoice::DefaultTexture,
        },
        TerrainMode::Solid => RenderStyle {
            surface: true,
            backface_culling: true,
            points_size: 0,
            lines_width: 0,
            object_material: true,
            texture: TextureChoice::DefaultTexture,
        },
        TerrainMode::Textured => RenderStyle {
            surface: true,
            backface_culling: true,
            points_size: 0,
            lines_width: 0,
            object_material: false,
            texture: TextureChoice::HeightmapTexture,
        },
        TerrainMode::Alphamap => RenderStyle {
            surface: true,
            backface_culling: true,
            points_size: 0,
            lines_width: 0,
            object_material: false,
            texture: TextureChoice::AlphamapTexture,
        },
    }
}

} // verus!
