//! The tables that the registry of the crate is built from, each a JSON
//! object.

use vstd::prelude::*;

verus! {

/// For each WMO code the key of the weather that it stands for.
pub const WMO_JSON: &'static str = "{\
    \"0\": \"clear_sky\",\
    \"1\": \"mainly_clear\",\
    \"2\": \"partly_cloudy\",\
    \"3\": \"overcast\",\
    \"4\": \"smoke\",\
    \"5\": \"haze\",\
    \"6\": \"dust\",\
    \"7\": \"dust\",\
    \"8\": \"dust\",\
    \"9\": \"dust_storm\",\
    \"10\": \"mist\",\
    \"11\": \"shallow_fog\",\
    \"12\": \"shallow_fog\",\
    \"13\": \"lightning\",\
    \"14\": \"distant_precipitation\",\
    \"15\": \"distant_precipitation\",\
    \"16\": \"distant_precipitation\",\
    \"17\": \"thunderstorm\",\
    \"18\": \"squall\",\
    \"19\": \"funnel_cloud\",\
    \"20\": \"recent_drizzle\",\
    \"21\": \"recent_rain\",\
    \"22\": \"recent_snow\",\
    \"23\": \"recent_freezing_rain\",\
    \"24\": \"recent_freezing_rain\",\
    \"25\": \"recent_rain_shower\",\
    \"26\": \"recent_snow_shower\",\
    \"27\": \"recent_snow_shower\",\
    \"28\": \"recent_fog\",\
    \"29\": \"recent_thunderstorm\",\
    \"30\": \"dust_storm\",\
    \"31\": \"dust_storm\",\
    \"32\": \"dust_storm\",\
    \"33\": \"dust_storm\",\
    \"34\": \"dust_storm\",\
    \"35\": \"dust_storm\",\
    \"36\": \"drifting_snow\",\
    \"37\": \"drifting_snow\",\
    \"38\": \"drifting_snow\",\
    \"39\": \"drifting_snow\",\
    \"40\": \"fog\",\
    \"41\": \"fog\",\
    \"42\": \"fog\",\
    \"43\": \"fog\",\
    \"44\": \"fog\",\
    \"45\": \"fog\",\
    \"46\": \"fog\",\
    \"47\": \"fog\",\
    \"48\": \"rime_fog\",\
    \"49\": \"rime_fog\",\
    \"50\": \"light_drizzle\",\
    \"51\": \"light_drizzle\",\
    \"52\": \"moderate_drizzle\",\
    \"53\": \"moderate_drizzle\",\
    \"54\": \"dense_drizzle\",\
    \"55\": \"dense_drizzle\",\
    \"56\": \"light_freezing_drizzle\",\
    \"57\": \"dense_freezing_drizzle\",\
    \"58\": \"drizzle_and_rain\",\
    \"59\": \"drizzle_and_rain\",\
    \"60\": \"light_rain\",\
    \"61\": \"light_rain\",\
    \"62\": \"moderate_rain\",\
    \"63\": \"moderate_rain\",\
    \"64\": \"heavy_rain\",\
    \"65\": \"heavy_rain\",\
    \"66\": \"light_freezing_rain\",\
    \"67\": \"heavy_freezing_rain\",\
    \"68\": \"sleet\",\
    \"69\": \"sleet\",\
    \"70\": \"light_snow\",\
    \"71\": \"light_snow\",\
    \"72\": \"moderate_snow\",\
    \"73\": \"moderate_snow\",\
    \"74\": \"heavy_snow\",\
    \"75\": \"heavy_snow\",\
    \"76\": \"snow_grains\",\
    \"77\": \"snow_grains\",\
    \"78\": \"snow_grains\",\
    \"79\": \"ice_pellets\",\
    \"80\": \"light_rain_shower\",\
    \"81\": \"moderate_rain_shower\",\
    \"82\": \"violent_rain_shower\",\
    \"83\": \"sleet_shower\",\
    \"84\": \"sleet_shower\",\
    \"85\": \"light_snow_shower\",\
    \"86\": \"heavy_snow_shower\",\
    \"87\": \"graupel_shower\",\
    \"88\": \"graupel_shower\",\
    \"89\": \"hail_shower\",\
    \"90\": \"hail_shower\",\
    \"91\": \"rain_after_thunderstorm\",\
    \"92\": \"rain_after_thunderstorm\",\
    \"93\": \"snow_after_thunderstorm\",\
    \"94\": \"snow_after_thunderstorm\",\
    \"95\": \"thunderstorm\",\
    \"96\": \"thunderstorm_with_hail\",\
    \"97\": \"heavy_thunderstorm\",\
    \"98\": \"thunderstorm_with_dust\",\
    \"99\": \"heavy_thunderstorm_with_hail\"\
    }";

/// For each key the description of the weather.
pub const DESCRIPTION_JSON: &'static str = "{\
    \"clear_sky\": \"Clear sky\",\
    \"mainly_clear\": \"Mainly clear\",\
    \"partly_cloudy\": \"Partly cloudy\",\
    \"overcast\": \"Overcast\",\
    \"smoke\": \"Smoke\",\
    \"haze\": \"Haze\",\
    \"dust\": \"Dust\",\
    \"dust_storm\": \"Dust storm\",\
    \"mist\": \"Mist\",\
    \"shallow_fog\": \"Shallow fog\",\
    \"lightning\": \"Lightning\",\
    \"distant_precipitation\": \"Precipitation in sight\",\
    \"thunderstorm\": \"Thunderstorm\",\
    \"squall\": \"Squall\",\
    \"funnel_cloud\": \"Funnel cloud\",\
    \"recent_drizzle\": \"Drizzle during the last hour\",\
    \"recent_rain\": \"Rain during the last hour\",\
    \"recent_snow\": \"Snow during the last hour\",\
    \"recent_freezing_rain\": \"Freezing rain during the last hour\",\
    \"recent_rain_shower\": \"Rain showers during the last hour\",\
    \"recent_snow_shower\": \"Snow showers during the last hour\",\
    \"recent_fog\": \"Fog during the last hour\",\
    \"recent_thunderstorm\": \"Thunderstorm during the last hour\",\
    \"drifting_snow\": \"Drifting snow\",\
    \"fog\": \"Fog\",\
    \"rime_fog\": \"Depositing rime fog\",\
    \"light_drizzle\": \"Light drizzle\",\
    \"moderate_drizzle\": \"Moderate drizzle\",\
    \"dense_drizzle\": \"Dense drizzle\",\
    \"light_freezing_drizzle\": \"Light freezing drizzle\",\
    \"dense_freezing_drizzle\": \"Dense freezing drizzle\",\
    \"drizzle_and_rain\": \"Drizzle and rain\",\
    \"light_rain\": \"Light rain\",\
    \"moderate_rain\": \"Moderate rain\",\
    \"heavy_rain\": \"Heavy rain\",\
    \"light_freezing_rain\": \"Light freezing rain\",\
    \"heavy_freezing_rain\": \"Heavy freezing rain\",\
    \"sleet\": \"Sleet\",\
    \"light_snow\": \"Light snow\",\
    \"moderate_snow\": \"Moderate snow\",\
    \"heavy_snow\": \"Heavy snow\",\
    \"snow_grains\": \"Snow grains\",\
    \"ice_pellets\": \"Ice pellets\",\
    \"light_rain_shower\": \"Light rain shower\",\
    \"moderate_rain_shower\": \"Moderate rain shower\",\
    \"violent_rain_shower\": \"Violent rain shower\",\
    \"sleet_shower\": \"Sleet shower\",\
    \"light_snow_shower\": \"Light snow shower\",\
    \"heavy_snow_shower\": \"Heavy snow shower\",\
    \"graupel_shower\": \"Graupel shower\",\
    \"hail_shower\": \"Hail shower\",\
    \"rain_after_thunderstorm\": \"Rain after a thunderstorm\",\
    \"snow_after_thunderstorm\": \"Snow after a thunderstorm\",\
    \"thunderstorm_with_hail\": \"Thunderstorm with hail\",\
    \"heavy_thunderstorm\": \"Heavy thunderstorm\",\
    \"thunderstorm_with_dust\": \"Thunderstorm with dust\",\
    \"heavy_thunderstorm_with_hail\": \"Heavy thunderstorm with hail\"\
    }";

/// For each key the file name of its icon, without directory and ending.
pub const ICON_FILE_NAMES_JSON: &'static str = "{\
    \"clear_sky\": \"clear-day\",\
    \"mainly_clear\": \"partly-cloudy-day\",\
    \"partly_cloudy\": \"partly-cloudy-day\",\
    \"overcast\": \"overcast\",\
    \"smoke\": \"smoke\",\
    \"haze\": \"haze\",\
    \"dust\": \"dust\",\
    \"dust_storm\": \"dust-wind\",\
    \"mist\": \"mist\",\
    \"shallow_fog\": \"fog\",\
    \"lightning\": \"lightning-bolt\",\
    \"distant_precipitation\": \"cloudy\",\
    \"thunderstorm\": \"thunderstorms\",\
    \"squall\": \"wind\",\
    \"funnel_cloud\": \"tornado\",\
    \"recent_drizzle\": \"drizzle\",\
    \"recent_rain\": \"rain\",\
    \"recent_snow\": \"snow\",\
    \"recent_freezing_rain\": \"sleet\",\
    \"recent_rain_shower\": \"rain\",\
    \"recent_snow_shower\": \"snow\",\
    \"recent_fog\": \"fog\",\
    \"recent_thunderstorm\": \"thunderstorms\",\
    \"drifting_snow\": \"wind-snow\",\
    \"fog\": \"fog\",\
    \"rime_fog\": \"fog\",\
    \"light_drizzle\": \"drizzle\",\
    \"moderate_drizzle\": \"drizzle\",\
    \"dense_drizzle\": \"drizzle\",\
    \"light_freezing_drizzle\": \"sleet\",\
    \"dense_freezing_drizzle\": \"sleet\",\
    \"drizzle_and_rain\": \"rain\",\
    \"light_rain\": \"rain\",\
    \"moderate_rain\": \"rain\",\
    \"heavy_rain\": \"extreme-rain\",\
    \"light_freezing_rain\": \"sleet\",\
    \"heavy_freezing_rain\": \"extreme-sleet\",\
    \"sleet\": \"sleet\",\
    \"light_snow\": \"snow\",\
    \"moderate_snow\": \"snow\",\
    \"heavy_snow\": \"extreme-snow\",\
    \"snow_grains\": \"snowflake\",\
    \"ice_pellets\": \"hail\",\
    \"light_rain_shower\": \"rain\",\
    \"moderate_rain_shower\": \"rain\",\
    \"violent_rain_shower\": \"extreme-rain\",\
    \"sleet_shower\": \"sleet\",\
    \"light_snow_shower\": \"snow\",\
    \"heavy_snow_shower\": \"extreme-snow\",\
    \"graupel_shower\": \"hail\",\
    \"hail_shower\": \"hail\",\
    \"rain_after_thunderstorm\": \"thunderstorms-rain\",\
    \"snow_after_thunderstorm\": \"thunderstorms-snow\",\
    \"thunderstorm_with_hail\": \"thunderstorms-extreme\",\
    \"heavy_thunderstorm\": \"thunderstorms-extreme-rain\",\
    \"thunderstorm_with_dust\": \"thunderstorms-overcast\",\
    \"heavy_thunderstorm_with_hail\": \"thunderstorms-extreme\"\
    }";

} // verus!
