//! What a surface is made with.
//!
//! Properties are fixed when the surface is created. Values, such as the color space, are set on a
//! surface that exists, and can be changed later.
use vstd::prelude::*;

verus! {

/// Pixel format guaranteed to be supported as the contents of a layer: the characters `BGRA`.
pub const PIXEL_FORMAT: u32 = 0x42475241;

/// Bytes per pixel for [`PIXEL_FORMAT`].
pub const BYTES_PER_PIXEL: u32 = 4;

/// What a property is about.
#[derive(Clone, Copy, Debug, PartialEq, Eq, Structural)]
pub enum PropertyKey {
    Width,
    Height,
    PixelFormat,
    BytesPerElement,
    PixelSizeCastingAllowed,
    CacheMode,
}

/// How the memory of a surface is cached.
#[derive(Clone, Copy, Debug, PartialEq, Eq, Structural)]
pub enum CacheMode {
    WriteCombine,
}

/// The value of a property.
#[derive(Clone, Copy, Debug, PartialEq, Eq, Structural)]
pub enum PropertyValue {
    Size(isize),
    Code(i32),
    Flag(bool),
    Cache(CacheMode),
}

/// A property of a surface.
#[derive(Clone, Copy, Debug, PartialEq, Eq, Structural)]
pub struct Property {
    pub key: PropertyKey,
    pub value: PropertyValue,
}

/// A color space.
#[derive(Clone, Copy, Debug, PartialEq, Eq, Structural)]
pub enum ColorSpace {
    /// The RGB color space of the device.
    DeviceRgb,
}

/// A value of a surface, to be set once the surface exists.
#[derive(Clone, Copy, Debug, PartialEq, Eq, Structural)]
pub enum SurfaceValue {
    /// The color space. A surface that is not told is in that of the display that the layer is on,
    /// which is usually not what is wanted.
    ColorSpace(ColorSpace),
}

/// What it takes to make a surface.
#[derive(Debug, PartialEq, Eq)]
pub struct SurfaceRequest {
    /// The properties to create the surface with.
    pub properties: Vec<Property>,
    /// The values to set on the surface once it was created, before it is used.
    pub values: Vec<SurfaceValue>,
}

/// The properties in the order in which they are set.
pub open spec fn property_list(
    width: u32,
    height: u32,
    pixel_format: u32,
    bytes_per_pixel: u32,
    write_combine_cache: bool,
    strict: bool,
) -> Seq<Property> {
    let always = seq![
        Property { key: PropertyKey::Width, value: PropertyValue::Size(width as isize) },
        Property { key: PropertyKey::Height, value: PropertyValue::Size(height as isize) },
        Property { key: PropertyKey::PixelFormat, value: PropertyValue::Code(pixel_format as i32) },
        Property {
            key: PropertyKey::BytesPerElement,
            value: PropertyValue::Code(bytes_per_pixel as i32),
        },
    ];
    let casting = if strict {
        seq![
            Property {
                key: PropertyKey::PixelSizeCastingAllowed,
                value: PropertyValue::Flag(false),
            },
        ]
    } else {
        Seq::empty()
    };
    let cache = if write_combine_cache {
        seq![
            Property {
                key: PropertyKey::CacheMode,
                value: PropertyValue::Cache(CacheMode::WriteCombine),
            },
        ]
    } else {
        Seq::empty()
    };
    always + casting + cache
}

/// The properties of every buffer of the given size: the pixel format that layers can show, and
/// the default caching.
pub open spec fn buffer_property_list(width: u32, height: u32, strict: bool) -> Seq<Property> {
    property_list(width, height, PIXEL_FORMAT, BYTES_PER_PIXEL, false, strict)
}

/// The values of every buffer: it is in the RGB color space of the device.
pub open spec fn buffer_value_list() -> Seq<SurfaceValue> {
    seq![SurfaceValue::ColorSpace(ColorSpace::DeviceRgb)]
}

/// What it takes to make the surface of a buffer of the given size.
pub fn buffer_request(width: u32, height: u32, strict: bool) -> (request: SurfaceRequest)
    ensures
        request.properties@ == buffer_property_list(width, height, strict),
        request.values@ == buffer_value_list(),
        ({
            let list = request.properties@;
            &&& list.contains(
                (Property { key: PropertyKey::Width, value: PropertyValue::Size(width as isize) }),
            )
            &&& list.contains(
                (Property {
                    key: PropertyKey::Height,
                    value: PropertyValue::Size(height as isize),
                }),
            )
            &&& list.contains(
                (Property {
                    key: PropertyKey::PixelFormat,
                    value: PropertyValue::Code(0x42475241),
                }),
            )
            &&& list.contains(
                (Property {
                    key: PropertyKey::BytesPerElement,
                    value: PropertyValue::Code(4),
                }),
            )
            &&& list.contains(
                (Property {
                    key: PropertyKey::PixelSizeCastingAllowed,
                    value: PropertyValue::Flag(false),
                }),
            ) <==> strict
            &&& list.len() == (if strict {
                5int
            } else {
                4
            })
            &&& forall|i: int, j: int|
                0 <= i < j < list.len() ==> (#[trigger] list[i]).key != (#[trigger] list[j]).key
        }),
        request.values@ == seq![SurfaceValue::ColorSpace(ColorSpace::DeviceRgb)],
{
    let properties = properties(width, height, PIXEL_FORMAT, BYTES_PER_PIXEL, false, strict);
    let mut values: Vec<SurfaceValue> = Vec::new();
    values.push(SurfaceValue::ColorSpace(ColorSpace::DeviceRgb));
    SurfaceRequest { properties, values }
}

/// Lists the properties to create a surface with.
///
/// The compositor usually does not render a surface with an unsupported pixel format at all. With
/// `strict`, the surface does not let its pixels be read as ones of another size; debug builds ask
/// for that.
pub fn properties(
    width: u32,
    height: u32,
    pixel_format: u32,
    bytes_per_pixel: u32,
    write_combine_cache: bool,
    strict: bool,
) -> (list: Vec<Property>)
    ensures
        list@ == property_list(
            width,
            height,
            pixel_format,
            bytes_per_pixel,
            write_combine_cache,
            strict,
        ),
        ({
            let list = list@;
            &&& list.contains(
                (Property { key: PropertyKey::Width, value: PropertyValue::Size(width as isize) }),
            )
            &&& list.contains(
                (Property {
                    key: PropertyKey::Height,
                    value: PropertyValue::Size(height as isize),
                }),
            )
            &&& list.contains(
                (Property {
                    key: PropertyKey::PixelFormat,
                    value: PropertyValue::Code(pixel_format as i32),
                }),
            )
            &&& list.contains(
                (Property {
                    key: PropertyKey::BytesPerElement,
                    value: PropertyValue::Code(bytes_per_pixel as i32),
                }),
            )
            &&& list.contains(
                (Property {
                    key: PropertyKey::PixelSizeCastingAllowed,
                    value: PropertyValue::Flag(false),
                }),
            ) <==> strict
            &&& list.contains(
                (Property {
                    key: PropertyKey::CacheMode,
                    value: PropertyValue::Cache(CacheMode::WriteCombine),
                }),
            ) <==> write_combine_cache
            &&& list.len() == 4 + (if strict {
                1int
            } else {
                0
            }) + (if write_combine_cache {
                1int
            } else {
                0
            })
            &&& forall|i: int, j: int|
                0 <= i < j < list.len() ==> (#[trigger] list[i]).key != (#[trigger] list[j]).key
        }),
{
    proof {
        law_list_holds_the_arguments(
            width,
            height,
            pixel_format,
            bytes_per_pixel,
            write_combine_cache,
            strict,
        );
    }
    let mut list: Vec<Property> = Vec::new();
    list.push(Property { key: PropertyKey::Width, value: PropertyValue::Size(width as isize) });
    list.push(Property { key: PropertyKey::Height, value: PropertyValue::Size(height as isize) });
    list.push(
        Property { key: PropertyKey::PixelFormat, value: PropertyValue::Code(pixel_format as i32) },
    );
    list.push(
        Property {
            key: PropertyKey::BytesPerElement,
            value: PropertyValue::Code(bytes_per_pixel as i32),
        },
    );
    if strict {
        list.push(
            Property {
                key: PropertyKey::PixelSizeCastingAllowed,
                value: PropertyValue::Flag(false),
            },
        );
    }
    if write_combine_cache {
        list.push(
            Property {
                key: PropertyKey::CacheMode,
                value: PropertyValue::Cache(CacheMode::WriteCombine),
            },
        );
    }
    list
}

/// No property is given twice, so it makes no difference in which order they are set, nor whether
/// a second value for a key would replace the first.
pub proof fn law_keys_are_distinct(
    width: u32,
    height: u32,
    pixel_format: u32,
    bytes_per_pixel: u32,
    write_combine_cache: bool,
    strict: bool,
)
    ensures
        ({
            let list = property_list(
                width,
                height,
                pixel_format,
                bytes_per_pixel,
                write_combine_cache,
                strict,
            );
            forall|i: int, j: int|
                0 <= i < j < list.len() ==> (#[trigger] list[i]).key != (#[trigger] list[j]).key
        }),
{
}

/// The list holds the arguments, each under its own key and in every build: looking a key up gives
/// the width, the height, the pixel format and the bytes per element that were asked for. Casting
/// is ruled out exactly where the surface is to be strict, and write combining is asked for exactly
/// where it is wanted. There is nothing else in the list, and no key occurs twice.
pub proof fn law_list_holds_the_arguments(
    width: u32,
    height: u32,
    pixel_format: u32,
    bytes_per_pixel: u32,
    write_combine_cache: bool,
    strict: bool,
)
    ensures
        ({
            let list = property_list(
                width,
                height,
                pixel_format,
                bytes_per_pixel,
                write_combine_cache,
                strict,
            );
            &&& list.contains(
                (Property { key: PropertyKey::Width, value: PropertyValue::Size(width as isize) }),
            )
            &&& list.contains(
                (Property {
                    key: PropertyKey::Height,
                    value: PropertyValue::Size(height as isize),
                }),
            )
            &&& list.contains(
                (Property {
                    key: PropertyKey::PixelFormat,
                    value: PropertyValue::Code(pixel_format as i32),
                }),
            )
            &&& list.contains(
                (Property {
                    key: PropertyKey::BytesPerElement,
                    value: PropertyValue::Code(bytes_per_pixel as i32),
                }),
            )
            &&& list.contains(
                (Property {
                    key: PropertyKey::PixelSizeCastingAllowed,
                    value: PropertyValue::Flag(false),
                }),
            ) <==> strict
            &&& list.contains(
                (Property {
                    key: PropertyKey::CacheMode,
                    value: PropertyValue::Cache(CacheMode::WriteCombine),
                }),
            ) <==> write_combine_cache
            &&& list.len() == 4 + (if strict {
                1int
            } else {
                0
            }) + (if write_combine_cache {
                1int
            } else {
                0
            })
            &&& forall|i: int, j: int|
                0 <= i < j < list.len() ==> (#[trigger] list[i]).key != (#[trigger] list[j]).key
        }),
{
    let list = property_list(
        width,
        height,
        pixel_format,
        bytes_per_pixel,
        write_combine_cache,
        strict,
    );
    assert(list[0].key is Width && list[1].key is Height);
    assert(list[2].key is PixelFormat && list[3].key is BytesPerElement);
    if strict {
        assert(list[4].key is PixelSizeCastingAllowed);
    }
    if write_combine_cache {
        assert(list[list.len() - 1].key is CacheMode);
    }
}

/// Every buffer is asked for with the width as its width and the height as its height, whichever is
/// larger, in the pixel format that layers can show, with as many bytes per element as a pixel has,
/// and with the default caching.
pub proof fn law_buffers_are_asked_for_to_size(width: u32, height: u32, strict: bool)
    ensures
        ({
            let list = buffer_property_list(width, height, strict);
            &&& list.contains(
                (Property { key: PropertyKey::Width, value: PropertyValue::Size(width as isize) }),
            )
            &&& list.contains(
                (Property {
                    key: PropertyKey::Height,
                    value: PropertyValue::Size(height as isize),
                }),
            )
            &&& list.contains(
                (Property {
                    key: PropertyKey::PixelFormat,
                    value: PropertyValue::Code(0x42475241),
                }),
            )
            &&& list.contains(
                (Property {
                    key: PropertyKey::BytesPerElement,
                    value: PropertyValue::Code(4),
                }),
            )
            &&& list.contains(
                (Property {
                    key: PropertyKey::PixelSizeCastingAllowed,
                    value: PropertyValue::Flag(false),
                }),
            ) <==> strict
            &&& list.len() == (if strict {
                5int
            } else {
                4
            })
            &&& forall|i: int, j: int|
                0 <= i < j < list.len() ==> (#[trigger] list[i]).key != (#[trigger] list[j]).key
        }),
        buffer_value_list() == seq![SurfaceValue::ColorSpace(ColorSpace::DeviceRgb)],
{
    law_list_holds_the_arguments(width, height, PIXEL_FORMAT, BYTES_PER_PIXEL, false, strict);
}

} // verus!
